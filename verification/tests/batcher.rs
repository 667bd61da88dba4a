use guardrails_core::batcher::{ChatCompletionBatcher, ChunkerType, DetectorId};
use guardrails_core::chunk::Chunk;
use guardrails_core::detection::{sort_by_start, Detection, Detections};
use guardrails_core::string_map::StringMap;

fn detection(start: Option<usize>, end: Option<usize>, detector: &str, score: f64) -> Detection<f64> {
    Detection {
        start,
        end,
        detector_id: Some(detector.into()),
        detection_type: detector.into(),
        score,
    }
}

fn sentence(start: usize, end: usize) -> Chunk {
    Chunk {
        input_start_index: start,
        input_end_index: end,
        start,
        end,
        text: "a sentence".into(),
    }
}

fn out_of_order_chunks() -> [Chunk; 3] {
    [
        Chunk {
            input_start_index: 0,
            input_end_index: 56,
            start: 11,
            end: 56,
            text: " a powerful tool for the development \
                of complex systems."
                .into(),
        },
        Chunk {
            input_start_index: 56,
            input_end_index: 135,
            start: 20,
            end: 60,
            text: " a powerful tool for the development \
                of complex systems."
                .into(),
        },
        Chunk {
            input_start_index: 0,
            input_end_index: 135,
            start: 0,
            end: 135,
            text: " It has been used in many fields, such as \
                computer vision and image processing."
                .into(),
        },
    ]
}

fn batcher(types: &[(&str, ChunkerType)]) -> ChatCompletionBatcher<f64> {
    let mut detectors: Vec<DetectorId> = Vec::new();
    let mut chunker_types: StringMap<ChunkerType> = StringMap::new();
    for (id, chunker_type) in types {
        detectors.push(id.to_string());
        chunker_types.insert(id.to_string(), *chunker_type);
    }
    ChatCompletionBatcher::new(detectors, chunker_types)
}

#[test]
fn test_batcher_with_single_chunk_no_all_type() {
    let input_id = 0;
    let chunk = Chunk {
        input_start_index: 0,
        input_end_index: 0,
        start: 0,
        end: 24,
        text: "this is a dummy sentence".into(),
    };

    // Create a batcher that will process batches for 2 detectors
    let detectors = vec![DetectorId::from("hap"), DetectorId::from("pii")];
    let mut chunker_types: StringMap<ChunkerType> = StringMap::new();
    chunker_types.insert("hap".to_string(), ChunkerType::Sentence);
    chunker_types.insert("pii".to_string(), ChunkerType::Sentence);
    let mut batcher = ChatCompletionBatcher::new(detectors, chunker_types);

    // Push chunk detections for pii detector
    batcher.push(
        input_id,
        "pii".into(),
        chunk.clone(),
        vec![Detection {
            start: Some(5),
            end: Some(10),
            detector_id: Some("pii".into()),
            detection_type: "pii".into(),
            score: 0.4,
        }],
    );

    // We only have detections for 1 detector
    // pop_batch() should return None
    assert!(batcher.pop_batch().is_none());

    // Push chunk detections for hap detector
    batcher.push(
        input_id,
        "hap".into(),
        chunk.clone(),
        vec![
            Detection {
                start: Some(5),
                end: Some(10),
                detector_id: Some("hap".into()),
                detection_type: "hap".into(),
                score: 0.8,
            },
            Detection {
                start: Some(15),
                end: Some(20),
                detector_id: Some("hap".into()),
                detection_type: "hap".into(),
                score: 0.8,
            },
        ],
    );

    // We have detections for 2 detectors
    // pop_batch() should return a batch containing 3 detections for the chunk
    let batch = batcher.pop_batch();
    assert!(batch.is_some_and(|(popped, detections)| popped == chunk && detections.len() == 3));
}

#[test]
fn test_batcher_with_single_chunk_all_type() {
    let input_id = 0;
    let chunk = Chunk {
        input_start_index: 0,
        input_end_index: 0,
        start: 0,
        end: 24,
        text: "this is a dummy sentence".into(),
    };

    // Create a batcher that will process batches for 2 detectors
    let detectors = vec![DetectorId::from("hap"), DetectorId::from("pii")];
    let mut chunker_types: StringMap<ChunkerType> = StringMap::new();
    chunker_types.insert("hap".to_string(), ChunkerType::All);
    chunker_types.insert("pii".to_string(), ChunkerType::All);
    let mut batcher = ChatCompletionBatcher::new(detectors, chunker_types);

    // Push chunk detections for pii detector
    batcher.push(
        input_id,
        "pii".into(),
        chunk.clone(),
        vec![Detection {
            start: Some(5),
            end: Some(10),
            detector_id: Some("pii".into()),
            detection_type: "pii".into(),
            score: 0.4,
        }],
    );

    // We only have detections for 1 detector
    // pop_batch() should return None
    assert!(batcher.pop_batch().is_none());

    // Push chunk detections for hap detector
    batcher.push(
        input_id,
        "hap".into(),
        chunk.clone(),
        vec![
            Detection {
                start: Some(5),
                end: Some(10),
                detector_id: Some("hap".into()),
                detection_type: "hap".into(),
                score: 0.8,
            },
            Detection {
                start: Some(15),
                end: Some(20),
                detector_id: Some("hap".into()),
                detection_type: "hap".into(),
                score: 0.8,
            },
        ],
    );

    // We have detections for 2 detectors
    // pop_batch() should return a batch containing 3 detections for the chunk
    let batch = batcher.pop_batch();
    println!("{:?}", batch);
    assert!(batch.is_some_and(|(popped, detections)| popped == chunk && detections.len() == 3));
}

#[test]
fn test_batcher_with_out_of_order_chunks() {
    let input_id = 0;
    let chunks = out_of_order_chunks();

    // Create a batcher that will process batches for 2 detectors
    let detectors = vec![DetectorId::from("hap"), DetectorId::from("pii")];
    let mut chunker_types: StringMap<ChunkerType> = StringMap::new();
    chunker_types.insert("hap".to_string(), ChunkerType::All);
    chunker_types.insert("pii".to_string(), ChunkerType::Sentence);
    let mut batcher = ChatCompletionBatcher::new(detectors, chunker_types);

    // Push All chunk detection for hap detector
    batcher.push(
        input_id,
        "hap".into(),
        chunks[2].clone(),
        vec![Detection {
            start: Some(0),
            end: Some(135),
            detector_id: Some("hap".into()),
            detection_type: "hap".into(),
            score: 0.9,
        }],
    );

    // Push chunk-2 detections for pii detector
    batcher.push(
        input_id,
        "pii".into(),
        chunks[1].clone(),
        Detections::default(), // no detections
    );

    // NOTE: if only All type gets pushed, it will get popped, since the batcher
    // doesn't know how many chunks are still to come

    // We have not pushed detections for chunk-1 for pii
    assert!(batcher.pop_batch().is_none());

    // Push chunk-1 detections for pii detector
    batcher.push(
        input_id,
        "pii".into(),
        chunks[0].clone(),
        vec![Detection {
            start: Some(11),
            end: Some(20),
            detector_id: Some("pii".into()),
            detection_type: "pii".into(),
            score: 0.4,
        }],
    );

    // We have all detections for chunk-1 and chunk-2
    // pop_batch() should return chunk-1 with 1 pii detection
    let batch = batcher.pop_batch();
    println!("batch 1: {:?}", batch);
    assert!(batch.is_some_and(|(chunk, detections)| chunk == chunks[0] && detections.len() == 1));

    // What waits now is what waited at the first pop_batch(), which gave None: no
    // later pop_batch() can give chunk-2 without contradicting that. Nor can it give
    // chunk-2 with a detection, or twice: its one report has no detections.
}

#[test]
fn whole_input_that_stands_first_is_held_back() {
    let chunks = out_of_order_chunks();
    let mut batcher = batcher(&[("hap", ChunkerType::All), ("pii", ChunkerType::Sentence)]);

    batcher.push(0, "hap".into(), chunks[2].clone(), vec![detection(Some(0), Some(135), "hap", 0.9)]);
    batcher.push(0, "pii".into(), chunks[1].clone(), Detections::default());

    // The chunk that holds the whole input stands first, and another waits
    assert!(batcher.pop_batch().is_none());

    batcher.push(0, "pii".into(), chunks[0].clone(), vec![detection(Some(11), Some(20), "pii", 0.4)]);

    let batch = batcher.pop_batch();
    assert!(batch.is_some_and(|(chunk, detections)| chunk == chunks[0] && detections.len() == 1));

    // The whole input stands first again and is held back
    assert!(batcher.pop_batch().is_none());
    assert!(!batcher.is_empty());
}

#[test]
fn whole_input_alone_is_handed_out_and_goes_last() {
    let chunks = out_of_order_chunks();
    let mut batcher = batcher(&[("hap", ChunkerType::All), ("pii", ChunkerType::Sentence)]);
    batcher.push(0, "hap".into(), chunks[2].clone(), vec![detection(Some(0), Some(135), "hap", 0.9)]);
    batcher.push(0, "pii".into(), chunks[0].clone(), vec![detection(Some(11), Some(20), "pii", 0.4)]);

    assert_eq!(batcher.pop_batch().unwrap().0, chunks[0]);
    let (chunk, detections) = batcher.pop_batch().unwrap();
    assert_eq!(chunk, chunks[2]);
    assert_eq!(detections, vec![detection(Some(0), Some(135), "hap", 0.9)]);
    assert!(batcher.is_empty());
    assert!(batcher.pop_batch().is_none());
}

#[test]
fn batches_come_out_in_the_order_of_their_chunks() {
    let mut batcher = batcher(&[("pii", ChunkerType::Sentence)]);
    for (start, end) in [(56, 90), (0, 20), (20, 56), (90, 100)] {
        batcher.push(0, "pii".into(), sentence(start, end), Detections::default());
    }
    let mut starts = Vec::new();
    while let Some((chunk, detections)) = batcher.pop_batch() {
        assert!(detections.is_empty());
        starts.push(chunk.start);
    }
    assert_eq!(starts, vec![0, 20, 56, 90]);
    assert!(batcher.is_empty());
}

#[test]
fn incomplete_chunk_holds_back_later_ones() {
    let mut batcher = batcher(&[("hap", ChunkerType::Sentence), ("pii", ChunkerType::Sentence)]);
    batcher.push(0, "pii".into(), sentence(56, 135), Detections::default());
    batcher.push(0, "hap".into(), sentence(0, 56), Detections::default());
    batcher.push(0, "hap".into(), sentence(56, 135), Detections::default());
    assert!(batcher.pop_batch().is_none());

    batcher.push(0, "pii".into(), sentence(0, 56), vec![detection(Some(10), Some(20), "pii", 0.4)]);
    let (chunk, detections) = batcher.pop_batch().unwrap();
    assert_eq!((chunk, detections.len()), (sentence(0, 56), 1));
    let (chunk, detections) = batcher.pop_batch().unwrap();
    assert_eq!((chunk, detections.len()), (sentence(56, 135), 0));
    assert!(batcher.is_empty());
}

#[test]
fn unknown_detector_is_ignored() {
    let mut batcher = batcher(&[("pii", ChunkerType::Sentence)]);
    batcher.push(0, "hap".into(), sentence(0, 5), vec![detection(Some(1), Some(2), "hap", 0.5)]);
    assert!(batcher.is_empty());
    assert!(batcher.pop_batch().is_none());
}

#[test]
fn surplus_report_keeps_a_chunk_from_being_handed_out() {
    let mut batcher = batcher(&[("pii", ChunkerType::Sentence)]);
    batcher.push(0, "pii".into(), sentence(0, 5), Detections::default());
    batcher.push(0, "pii".into(), sentence(0, 5), Detections::default());
    assert!(batcher.pop_batch().is_none());
    assert!(!batcher.is_empty());
}

#[test]
fn first_report_settles_the_type_of_a_chunk() {
    let mut batcher = batcher(&[
        ("hap", ChunkerType::All),
        ("pii", ChunkerType::Sentence),
        ("name", ChunkerType::Sentence),
    ]);
    // One report is all that a chunk with the whole input needs
    batcher.push(0, "hap".into(), sentence(0, 5), Detections::default());
    assert!(batcher.pop_batch().is_some());
    // As a sentence the chunk needs two, whoever sends the second
    batcher.push(0, "pii".into(), sentence(0, 5), Detections::default());
    assert!(batcher.pop_batch().is_none());
    batcher.push(0, "hap".into(), sentence(0, 5), Detections::default());
    assert!(batcher.pop_batch().is_some());
}

#[test]
fn detections_of_a_batch_are_sorted_by_start() {
    let mut batcher = batcher(&[("hap", ChunkerType::Sentence), ("pii", ChunkerType::Sentence)]);
    batcher.push(
        0,
        "pii".into(),
        sentence(0, 30),
        vec![detection(Some(15), Some(20), "pii", 0.1), detection(Some(5), Some(10), "pii", 0.2)],
    );
    batcher.push(
        0,
        "hap".into(),
        sentence(0, 30),
        vec![detection(Some(5), Some(7), "hap", 0.3), detection(None, None, "hap", 0.4)],
    );
    let (_, detections) = batcher.pop_batch().unwrap();
    assert_eq!(
        detections,
        vec![
            detection(None, None, "hap", 0.4),
            detection(Some(5), Some(10), "pii", 0.2),
            detection(Some(5), Some(7), "hap", 0.3),
            detection(Some(15), Some(20), "pii", 0.1),
        ]
    );
}

#[test]
fn sort_agrees_with_a_stable_sort() {
    let starts = [Some(9), None, Some(3), Some(9), Some(0), None, Some(3), Some(usize::MAX)];
    let mut detections: Detections<f64> = Vec::new();
    for (place, start) in starts.iter().enumerate() {
        detections.push(detection(*start, None, "hap", place as f64));
    }
    let mut expected = detections.clone();
    expected.sort_by_key(|d| d.start);
    sort_by_start(&mut detections);
    assert_eq!(detections, expected);
}

#[test]
fn chunk_order_goes_by_fields_and_then_by_text() {
    let chunk = |a, b, c, d, text: &str| Chunk {
        input_start_index: a,
        input_end_index: b,
        start: c,
        end: d,
        text: text.into(),
    };
    let chunks = vec![
        chunk(0, 0, 0, 0, ""),
        chunk(0, 0, 0, 0, "a"),
        chunk(0, 0, 0, 0, "ab"),
        chunk(0, 0, 0, 0, "b"),
        chunk(0, 0, 0, 0, "\u{e9}"),
        chunk(0, 0, 0, 0, "\u{ffff}"),
        chunk(0, 0, 0, 0, "\u{1f600}"),
        chunk(0, 0, 0, 9, ""),
        chunk(0, 0, 5, 0, ""),
        chunk(0, 7, 0, 0, ""),
        chunk(1, 0, 0, 0, ""),
    ];
    for (i, a) in chunks.iter().enumerate() {
        for (j, b) in chunks.iter().enumerate() {
            assert_eq!(a.goes_before(b), i < j);
            assert_eq!(a.goes_before(b), a < b);
        }
    }
}

#[test]
fn chunks_that_differ_in_text_are_kept_apart() {
    let mut batcher = batcher(&[("pii", ChunkerType::Sentence)]);
    let mut other = sentence(0, 5);
    other.text = "b sentence".into();
    batcher.push(0, "pii".into(), other.clone(), Detections::default());
    batcher.push(0, "pii".into(), sentence(0, 5), Detections::default());
    assert_eq!(batcher.pop_batch().unwrap().0, sentence(0, 5));
    assert_eq!(batcher.pop_batch().unwrap().0, other);
}

#[test]
fn later_reports_do_not_hold_back_a_ready_sentence() {
    let mut batcher = batcher(&[("hap", ChunkerType::Sentence), ("pii", ChunkerType::Sentence)]);
    batcher.push(0, "pii".into(), sentence(0, 5), Detections::default());
    batcher.push(0, "hap".into(), sentence(0, 5), Detections::default());
    batcher.push(0, "hap".into(), sentence(5, 9), Detections::default());
    assert_eq!(batcher.pop_batch().unwrap().0, sentence(0, 5));
    assert!(batcher.pop_batch().is_none());
}

#[test]
fn complete_chunks_all_come_out_when_the_whole_input_stands_last() {
    let mut batcher = batcher(&[("hap", ChunkerType::All), ("pii", ChunkerType::Sentence)]);
    batcher.push(0, "hap".into(), sentence(3, 30), Detections::default());
    batcher.push(0, "pii".into(), sentence(2, 9), Detections::default());
    batcher.push(0, "pii".into(), sentence(0, 2), Detections::default());
    assert_eq!(batcher.pop_batch().unwrap().0, sentence(0, 2));
    assert_eq!(batcher.pop_batch().unwrap().0, sentence(2, 9));
    assert_eq!(batcher.pop_batch().unwrap().0, sentence(3, 30));
    assert!(batcher.is_empty());
}
