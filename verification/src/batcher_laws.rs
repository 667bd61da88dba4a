//! Laws of batching.

use vstd::prelude::*;

use crate::batcher::{
    is_first, law_push_keeps_well_formed, law_reports_needed_is_number_of_names, BatcherView,
    ChunkerType, PendingView,
};
use crate::chunk::{law_chunk_order_is_total, law_chunk_order_is_transitive, ChunkView};
use crate::detection::{is_stable_sort, law_sort_keeps_detections, Detection};

verus! {

/// The detections of one detector for one chunk.
pub struct Report<S> {
    pub detector_id: Seq<char>,
    pub chunk: ChunkView,
    pub detections: Seq<Detection<S>>,
}

/// The batcher after a sequence of reports.
pub open spec fn after_reports<S>(
    batcher: BatcherView<S>,
    reports: Seq<Report<S>>,
) -> BatcherView<S>
    decreases reports.len(),
{
    if reports.len() == 0 {
        batcher
    } else {
        let last = reports.last();
        after_reports(batcher, reports.drop_last()).after_push(
            last.detector_id,
            last.chunk,
            last.detections,
        )
    }
}

/// What detectors that are known report on a chunk, in the order in which they do.
pub open spec fn reported_on<S>(
    chunker_types: Map<Seq<char>, ChunkerType>,
    reports: Seq<Report<S>>,
    chunk: ChunkView,
) -> Seq<Seq<Detection<S>>>
    decreases reports.len(),
{
    if reports.len() == 0 {
        Seq::empty()
    } else {
        let last = reports.last();
        let before = reported_on(chunker_types, reports.drop_last(), chunk);
        if last.chunk == chunk && chunker_types.contains_key(last.detector_id) {
            before.push(last.detections)
        } else {
            before
        }
    }
}

/// What waited on a chunk.
pub open spec fn waiting_on<S>(batcher: BatcherView<S>, chunk: ChunkView) -> Seq<
    Seq<Detection<S>>,
> {
    if batcher.state.contains_key(chunk) {
        batcher.state[chunk].reports
    } else {
        Seq::empty()
    }
}

/// What waits on a chunk is exactly what was reported on it by known detectors, in
/// the order in which it came in: nothing is lost, added, or moved to another chunk.
/// A chunk keeps the type that its first report gave it.
pub proof fn law_reports_are_kept<S>(
    batcher: BatcherView<S>,
    reports: Seq<Report<S>>,
    chunk: ChunkView,
)
    requires
        batcher.well_formed(),
    ensures
        after_reports(batcher, reports).well_formed(),
        after_reports(batcher, reports).detectors == batcher.detectors,
        after_reports(batcher, reports).chunker_types == batcher.chunker_types,
        waiting_on(after_reports(batcher, reports), chunk) == waiting_on(batcher, chunk)
            + reported_on(batcher.chunker_types, reports, chunk),
        after_reports(batcher, reports).state.contains_key(chunk) <==> waiting_on(
            after_reports(batcher, reports),
            chunk,
        ).len() > 0,
        batcher.state.contains_key(chunk) ==> after_reports(
            batcher,
            reports,
        ).state[chunk].chunker_type == batcher.state[chunk].chunker_type,
    decreases reports.len(),
{
    if reports.len() == 0 {
        assert(waiting_on(batcher, chunk) =~= waiting_on(batcher, chunk) + Seq::<
            Seq<Detection<S>>,
        >::empty());
    } else {
        let last = reports.last();
        let before = after_reports(batcher, reports.drop_last());
        law_reports_are_kept(batcher, reports.drop_last(), chunk);
        law_push_keeps_well_formed(before, last.detector_id, last.chunk, last.detections);
        assert(waiting_on(after_reports(batcher, reports), chunk) =~= waiting_on(batcher, chunk)
            + reported_on(batcher.chunker_types, reports, chunk));
    }
}

/// A batch holds exactly the detections that known detectors reported on its chunk,
/// ordered by start; those with equal starts keep the order in which they came in.
pub proof fn law_batch_is_what_was_reported<S>(
    batcher: BatcherView<S>,
    reports: Seq<Report<S>>,
    chunk: ChunkView,
    detections: Seq<Detection<S>>,
)
    requires
        batcher.well_formed(),
        batcher.state == Map::<ChunkView, PendingView<S>>::empty(),
        after_reports(batcher, reports).is_ready(chunk),
        is_stable_sort(after_reports(batcher, reports).state[chunk].reports.flatten(), detections),
    ensures
        is_stable_sort(
            reported_on(batcher.chunker_types, reports, chunk).flatten(),
            detections,
        ),
        detections.to_multiset() == reported_on(
            batcher.chunker_types,
            reports,
            chunk,
        ).flatten().to_multiset(),
{
    law_reports_are_kept(batcher, reports, chunk);
    let reported = reported_on(batcher.chunker_types, reports, chunk);
    assert(waiting_on(batcher, chunk) + reported =~= reported);
    law_sort_keeps_detections(reported.flatten(), detections);
}

/// A chunk with more reports than its type has detectors is never handed out,
/// whatever else is reported.
pub proof fn law_surplus_is_never_handed_out<S>(
    batcher: BatcherView<S>,
    reports: Seq<Report<S>>,
    chunk: ChunkView,
)
    requires
        batcher.well_formed(),
        batcher.state.contains_key(chunk),
        batcher.state[chunk].reports.len() > batcher.reports_needed(
            batcher.state[chunk].chunker_type,
        ),
    ensures
        !after_reports(batcher, reports).is_ready(chunk),
{
    law_reports_are_kept(batcher, reports, chunk);
}

/// A sentence that is ready stays ready when a later chunk is reported on.
pub proof fn law_later_reports_do_not_hold_back<S>(
    batcher: BatcherView<S>,
    chunk: ChunkView,
    later: Report<S>,
)
    requires
        batcher.is_ready(chunk),
        batcher.state[chunk].chunker_type == ChunkerType::Sentence,
        chunk.precedes(later.chunk),
    ensures
        batcher.after_push(later.detector_id, later.chunk, later.detections).is_ready(chunk),
{
    law_chunk_order_is_total(chunk, later.chunk);
}

/// A report by a detector whose chunker type is not known changes nothing.
pub proof fn law_unknown_detector_is_ignored<S>(
    batcher: BatcherView<S>,
    detector_id: Seq<char>,
    chunk: ChunkView,
    detections: Seq<Detection<S>>,
)
    requires
        !batcher.chunker_types.contains_key(detector_id),
    ensures
        batcher.after_push(detector_id, chunk, detections) == batcher,
{
}

/// Reports on different chunks may come in in any order.
pub proof fn law_chunks_may_come_out_of_order<S>(
    batcher: BatcherView<S>,
    a: Report<S>,
    b: Report<S>,
)
    requires
        a.chunk != b.chunk,
    ensures
        batcher.after_push(a.detector_id, a.chunk, a.detections).after_push(
            b.detector_id,
            b.chunk,
            b.detections,
        ) == batcher.after_push(b.detector_id, b.chunk, b.detections).after_push(
            a.detector_id,
            a.chunk,
            a.detections,
        ),
{
    let ab = batcher.after_push(a.detector_id, a.chunk, a.detections).after_push(
        b.detector_id,
        b.chunk,
        b.detections,
    );
    let ba = batcher.after_push(b.detector_id, b.chunk, b.detections).after_push(
        a.detector_id,
        a.chunk,
        a.detections,
    );
    assert(ab.state =~= ba.state);
}

/// A batcher from which a batch was handed out is well-formed, has the same
/// detectors, and keeps every other chunk as it was.
pub proof fn law_pop_leaves_other_chunks_alone<S>(
    batcher: BatcherView<S>,
    chunk: ChunkView,
    other: ChunkView,
)
    requires
        batcher.well_formed(),
        batcher.is_ready(chunk),
        other != chunk,
    ensures
        batcher.after_pop(chunk).well_formed(),
        batcher.after_pop(chunk).detectors == batcher.detectors,
        batcher.after_pop(chunk).chunker_types == batcher.chunker_types,
        !batcher.after_pop(chunk).state.contains_key(chunk),
        batcher.after_pop(chunk).state.contains_key(other) <==> batcher.state.contains_key(other),
        waiting_on(batcher.after_pop(chunk), other) == waiting_on(batcher, other),
        batcher.after_pop(chunk).state.len() == batcher.state.len() - 1,
{
}

/// At most one chunk is the next to be handed out.
pub proof fn law_next_is_unique<S>(batcher: BatcherView<S>, a: ChunkView, b: ChunkView)
    requires
        batcher.is_ready(a),
        batcher.is_ready(b),
    ensures
        a == b,
{
    law_chunk_order_is_total(a, b);
}

/// Batches that are handed out one after the other come in the order of their
/// chunks.
pub proof fn law_batches_come_out_in_order<S>(
    batcher: BatcherView<S>,
    first: ChunkView,
    second: ChunkView,
)
    requires
        batcher.is_ready(first),
        batcher.after_pop(first).is_ready(second),
    ensures
        first.precedes(second),
{
    assert(batcher.state.contains_key(second));
}

/// As long as the first chunk lacks a report nothing is handed out, whatever the
/// later chunks have.
pub proof fn law_incomplete_chunk_holds_back_later_ones<S>(
    batcher: BatcherView<S>,
    chunk: ChunkView,
)
    requires
        is_first(batcher.state, chunk),
        batcher.state[chunk].reports.len() < batcher.reports_needed(
            batcher.state[chunk].chunker_type,
        ),
    ensures
        !batcher.has_ready(),
{
    if batcher.has_ready() {
        let ready = choose|ready: ChunkView| #[trigger] batcher.is_ready(ready);
        law_chunk_order_is_total(ready, chunk);
    }
}

/// A chunk that holds the whole input is handed out only when no other chunk waits:
/// after it the batcher is empty.
pub proof fn law_whole_input_goes_last<S>(batcher: BatcherView<S>, chunk: ChunkView)
    requires
        batcher.well_formed(),
        batcher.is_ready(chunk),
        batcher.state[chunk].chunker_type == ChunkerType::All,
    ensures
        batcher.after_pop(chunk).state == Map::<ChunkView, PendingView<S>>::empty(),
{
    assert(batcher.state.dom().remove(chunk).len() == 0);
    assert(batcher.after_pop(chunk).state.dom() =~= Set::empty());
    assert(batcher.after_pop(chunk).state =~= Map::empty());
}

/// A chunk that holds the whole input and stands first is held back, and with it all
/// others, as long as another chunk waits.
pub proof fn law_whole_input_is_held_back<S>(
    batcher: BatcherView<S>,
    chunk: ChunkView,
    other: ChunkView,
)
    requires
        batcher.well_formed(),
        is_first(batcher.state, chunk),
        batcher.state[chunk].chunker_type == ChunkerType::All,
        batcher.state.contains_key(other),
        other != chunk,
    ensures
        !batcher.has_ready(),
{
    if batcher.has_ready() {
        let ready = choose|ready: ChunkView| #[trigger] batcher.is_ready(ready);
        law_chunk_order_is_total(ready, chunk);
        assert(batcher.state.dom().remove(chunk).contains(other));
        assert(batcher.state.dom().remove(chunk).len() == 0);
    }
}

/// All reports are on one chunk, by known detectors of one type.
pub open spec fn all_on_one_chunk<S>(
    chunker_types: Map<Seq<char>, ChunkerType>,
    reports: Seq<Report<S>>,
    chunk: ChunkView,
    chunker_type: ChunkerType,
) -> bool {
    forall|i: int|
        0 <= i < reports.len() ==> (#[trigger] reports[i]).chunk == chunk
            && chunker_types.contains_key(reports[i].detector_id)
            && chunker_types[reports[i].detector_id] == chunker_type
}

proof fn lemma_one_chunk_waits<S>(
    batcher: BatcherView<S>,
    reports: Seq<Report<S>>,
    chunk: ChunkView,
    chunker_type: ChunkerType,
)
    requires
        batcher.state == Map::<ChunkView, PendingView<S>>::empty(),
        all_on_one_chunk(batcher.chunker_types, reports, chunk, chunker_type),
        reports.len() > 0,
    ensures
        after_reports(batcher, reports).chunker_types == batcher.chunker_types,
        after_reports(batcher, reports).state.dom() == Set::empty().insert(chunk),
        after_reports(batcher, reports).state[chunk].chunker_type == chunker_type,
        after_reports(batcher, reports).state[chunk].reports.len() == reports.len(),
    decreases reports.len(),
{
    let before = reports.drop_last();
    assert(all_on_one_chunk(batcher.chunker_types, before, chunk, chunker_type));
    assert(reports.last() == reports[reports.len() - 1]);
    if before.len() > 0 {
        lemma_one_chunk_waits(batcher, before, chunk, chunker_type);
    } else {
        assert(after_reports(batcher, before) == batcher);
    }
    assert(after_reports(batcher, reports).state.dom() =~= Set::empty().insert(chunk));
}

/// When all reports are on one chunk, by detectors of one type, it is handed out
/// exactly when there are as many reports as detectors of that type.
pub proof fn law_single_chunk_is_ready_when_all_have_reported<S>(
    batcher: BatcherView<S>,
    reports: Seq<Report<S>>,
    chunk: ChunkView,
    chunker_type: ChunkerType,
)
    requires
        batcher.state == Map::<ChunkView, PendingView<S>>::empty(),
        all_on_one_chunk(batcher.chunker_types, reports, chunk, chunker_type),
        reports.len() > 0,
    ensures
        after_reports(batcher, reports).has_ready() <==> after_reports(batcher, reports).is_ready(
            chunk,
        ),
        after_reports(batcher, reports).is_ready(chunk) <==> reports.len()
            == batcher.reports_needed(chunker_type),
{
    lemma_one_chunk_waits(batcher, reports, chunk, chunker_type);
    let after = after_reports(batcher, reports);
    assert(after.state.len() == 1);
    assert(is_first(after.state, chunk));
    if after.has_ready() {
        let ready = choose|ready: ChunkView| #[trigger] after.is_ready(ready);
        assert(after.state.contains_key(ready));
    }
}

proof fn lemma_some_chunk_is_first<S>(state: Map<ChunkView, PendingView<S>>)
    requires
        state.dom().finite(),
        state.len() > 0,
    ensures
        exists|chunk: ChunkView| #[trigger] is_first(state, chunk),
    decreases state.len(),
{
    let some = state.dom().choose();
    let rest = state.remove(some);
    if rest.len() > 0 {
        lemma_some_chunk_is_first(rest);
        let least = choose|chunk: ChunkView| #[trigger] is_first(rest, chunk);
        law_chunk_order_is_total(some, least);
        if some.precedes(least) {
            assert forall|other: ChunkView| #[trigger] state.contains_key(other) implies other
                == some || some.precedes(other) by {
                if other != some {
                    assert(rest.contains_key(other));
                    if other != least {
                        law_chunk_order_is_transitive(some, least, other);
                    }
                }
            }
            assert(is_first(state, some));
        } else {
            assert forall|other: ChunkView| #[trigger] state.contains_key(other) implies other
                == least || least.precedes(other) by {
                if other != some {
                    assert(rest.contains_key(other));
                }
            }
            assert(is_first(state, least));
        }
    } else {
        assert(rest.dom() =~= Set::empty());
        assert forall|other: ChunkView| #[trigger] state.contains_key(other) implies other
            == some by {
            if other != some {
                assert(rest.dom().contains(other));
            }
        }
        assert(is_first(state, some));
    }
}

/// Every chunk that waits has all its reports.
pub open spec fn all_complete<S>(batcher: BatcherView<S>) -> bool {
    forall|chunk: ChunkView| #[trigger]
        batcher.state.contains_key(chunk) ==> batcher.state[chunk].reports.len()
            == batcher.reports_needed(batcher.state[chunk].chunker_type)
}

/// No chunk waits behind one that holds the whole input.
pub open spec fn whole_input_stands_last<S>(batcher: BatcherView<S>) -> bool {
    forall|whole: ChunkView, other: ChunkView|
        #![trigger batcher.state.contains_key(whole), batcher.state.contains_key(other)]
        batcher.state.contains_key(whole) && batcher.state[whole].chunker_type == ChunkerType::All
            && batcher.state.contains_key(other) && other != whole ==> other.precedes(whole)
}

/// When every chunk that waits has all its reports, and none waits behind one that
/// holds the whole input, they are handed out one after the other until none is left.
pub proof fn law_complete_chunks_all_come_out<S>(batcher: BatcherView<S>)
    requires
        batcher.well_formed(),
        all_complete(batcher),
        whole_input_stands_last(batcher),
        batcher.state.len() > 0,
    ensures
        batcher.has_ready(),
        forall|chunk: ChunkView| #[trigger]
            batcher.is_ready(chunk) ==> {
                let rest = batcher.after_pop(chunk);
                &&& rest.well_formed()
                &&& all_complete(rest)
                &&& whole_input_stands_last(rest)
                &&& rest.state.len() == batcher.state.len() - 1
            },
{
    lemma_some_chunk_is_first(batcher.state);
    let first = choose|chunk: ChunkView| #[trigger] is_first(batcher.state, chunk);
    if batcher.state[first].chunker_type == ChunkerType::All {
        assert forall|other: ChunkView| #[trigger] batcher.state.contains_key(other) implies other
            == first by {
            law_chunk_order_is_total(first, other);
        }
        assert(batcher.state.dom() =~= Set::empty().insert(first));
    }
    assert(batcher.is_ready(first));
    assert forall|chunk: ChunkView| #[trigger] batcher.is_ready(chunk) implies {
        let rest = batcher.after_pop(chunk);
        &&& rest.well_formed()
        &&& all_complete(rest)
        &&& whole_input_stands_last(rest)
        &&& rest.state.len() == batcher.state.len() - 1
    } by {
        let rest = batcher.after_pop(chunk);
        assert forall|c: ChunkView| #[trigger] rest.state.contains_key(c) implies
            batcher.state.contains_key(c) && rest.state[c] == batcher.state[c] by {}
    }
}

/// A chunk needs one report for each detector that works on chunks of its type: as many
/// as there are different names that are mapped to the type.
pub proof fn law_every_detector_of_the_type_must_report<S>(
    batcher: BatcherView<S>,
    ids: Seq<Seq<char>>,
    chunker_type: ChunkerType,
)
    requires
        ids.no_duplicates(),
        forall|id: Seq<char>| #[trigger]
            ids.contains(id) <==> batcher.chunker_types.contains_key(id)
                && batcher.chunker_types[id] == chunker_type,
    ensures
        batcher.reports_needed(chunker_type) == ids.len(),
{
    ids.unique_seq_to_set();
    law_reports_needed_is_number_of_names(batcher, chunker_type);
    let peers = batcher.chunker_types.dom().filter(
        |id: Seq<char>| batcher.chunker_types[id] == chunker_type,
    );
    assert forall|id: Seq<char>| #[trigger] peers.contains(id) == ids.to_set().contains(id) by {
        assert(ids.to_set().contains(id) == ids.contains(id));
    }
    assert(peers =~= ids.to_set());
}

/// One more detector of a type raises the number of reports needed for that type by
/// one, and for no other type.
pub proof fn law_one_more_detector_means_one_more_report<S>(
    batcher: BatcherView<S>,
    more: BatcherView<S>,
    id: Seq<char>,
    chunker_type: ChunkerType,
    asked: ChunkerType,
)
    requires
        batcher.chunker_types.dom().finite(),
        !batcher.chunker_types.contains_key(id),
        more.chunker_types == batcher.chunker_types.insert(id, chunker_type),
    ensures
        more.reports_needed(asked) == batcher.reports_needed(asked) + if asked == chunker_type {
            1int
        } else {
            0
        },
{
    let peers = batcher.chunker_types.dom().filter(
        |other: Seq<char>| batcher.chunker_types[other] == asked,
    );
    let more_peers = more.chunker_types.dom().filter(
        |other: Seq<char>| more.chunker_types[other] == asked,
    );
    law_reports_needed_is_number_of_names(batcher, asked);
    law_reports_needed_is_number_of_names(more, asked);
    assert(peers.finite());
    if asked == chunker_type {
        assert(more_peers =~= peers.insert(id));
    } else {
        assert(more_peers =~= peers);
    }
}

/// When `chunk` is handed out next: every other chunk that waits goes after it, it has
/// the reports that its type needs, and if it holds the whole input no other chunk
/// waits. A batch is handed out exactly when there is such a chunk.
pub proof fn law_what_makes_a_chunk_ready<S>(batcher: BatcherView<S>, chunk: ChunkView)
    requires
        batcher.state.dom().finite(),
    ensures
        batcher.is_ready(chunk) <==> {
            &&& batcher.state.contains_key(chunk)
            &&& forall|other: ChunkView| #[trigger]
                batcher.state.contains_key(other) && other != chunk ==> chunk.precedes(other)
            &&& batcher.state[chunk].reports.len() == batcher.reports_needed(
                batcher.state[chunk].chunker_type,
            )
            &&& batcher.state[chunk].chunker_type == ChunkerType::All ==> forall|other: ChunkView|
                #[trigger]
                batcher.state.contains_key(other) ==> other == chunk
        },
        batcher.is_ready(chunk) ==> batcher.has_ready(),
        batcher.has_ready() ==> exists|ready: ChunkView| #[trigger] batcher.is_ready(ready),
{
    if batcher.state.contains_key(chunk) {
        let rest = batcher.state.dom().remove(chunk);
        if batcher.state.len() == 1 {
            assert(rest.len() == 0);
            assert forall|other: ChunkView| #[trigger] batcher.state.contains_key(other) implies
                other == chunk by {
                if other != chunk {
                    assert(rest.contains(other));
                }
            }
        }
        if forall|other: ChunkView| #[trigger]
            batcher.state.contains_key(other) ==> other == chunk {
            assert(batcher.state.dom() =~= Set::empty().insert(chunk));
        }
    }
}

/// What a report by a known detector does: its detections are added behind those that
/// wait on the chunk; a chunk on which nothing waits takes the detector's type, any other
/// keeps its type; no other chunk is touched.
pub proof fn law_what_a_report_does<S>(
    batcher: BatcherView<S>,
    report: Report<S>,
    other: ChunkView,
)
    requires
        batcher.chunker_types.contains_key(report.detector_id),
        other != report.chunk,
    ensures
        ({
            let after = batcher.after_push(report.detector_id, report.chunk, report.detections);
            &&& after.detectors == batcher.detectors
            &&& after.chunker_types == batcher.chunker_types
            &&& after.state.contains_key(report.chunk)
            &&& batcher.state.contains_key(report.chunk) ==> after.state[report.chunk].reports
                == batcher.state[report.chunk].reports + seq![report.detections]
                && after.state[report.chunk].chunker_type
                == batcher.state[report.chunk].chunker_type
            &&& !batcher.state.contains_key(report.chunk) ==> after.state[report.chunk].reports
                == seq![report.detections] && after.state[report.chunk].chunker_type
                == batcher.chunker_types[report.detector_id]
            &&& after.state.contains_key(other) <==> batcher.state.contains_key(other)
            &&& batcher.state.contains_key(other) ==> after.state[other] == batcher.state[other]
        }),
{
    let after = batcher.after_push(report.detector_id, report.chunk, report.detections);
    if batcher.state.contains_key(report.chunk) {
        assert(after.state[report.chunk].reports =~= batcher.state[report.chunk].reports + seq![
            report.detections,
        ]);
    }
}

} // verus!
