//! Batches of detections for chat completions: each chunk is held back until
//! every detector that looks at chunks of its kind has reported on it.

use vstd::prelude::*;

use crate::assoc;
use crate::chunk::{
    law_chunk_order_is_total, law_chunk_order_is_transitive, law_chunks_go_by_place, Chunk,
    ChunkView,
};
use crate::detection::{
    is_stable_sort, law_sort_keeps_detections, sort_by_start, Detection, Detections,
};
use crate::string_map::StringMap;

verus! {

/// The name of a detector.
pub type DetectorId = String;

/// The index of an input: for chat completions, the index of the choice.
pub type InputId = u32;

/// How the input of a detector is cut up.
#[derive(Debug, Clone, Copy, PartialEq, Eq, Structural, Hash)]
pub enum ChunkerType {
    /// Into sentences.
    Sentence,
    /// Not at all: one chunk holds the whole input.
    All,
}

/// How many detectors work on each type of chunk.
#[derive(Debug, Clone, Copy)]
struct DetectorCount {
    sentence: usize,
    all: usize,
}

/// A chunk with what has been reported on it.
#[derive(Debug)]
struct Pending<S> {
    chunk: Chunk,
    chunker_type: ChunkerType,
    reports: Vec<Detections<S>>,
}

/// A batcher for chat completions.
#[derive(Debug)]
pub struct ChatCompletionBatcher<S> {
    detectors: Vec<DetectorId>,
    chunker_types: StringMap<ChunkerType>,
    state: Vec<Pending<S>>,
    chunk_detector_count: DetectorCount,
}

/// What has been reported on a chunk, as a mathematical value.
#[verifier::ext_equal]
pub struct PendingView<S> {
    /// The type of the chunk.
    pub chunker_type: ChunkerType,
    /// The reports, in the order in which they came in.
    pub reports: Seq<Seq<Detection<S>>>,
}

/// A batcher as a mathematical value.
#[verifier::ext_equal]
pub struct BatcherView<S> {
    /// The detectors that the batcher was made for.
    pub detectors: Seq<Seq<char>>,
    /// The type of the chunks that each detector works on.
    pub chunker_types: Map<Seq<char>, ChunkerType>,
    /// The chunks that wait to be handed out.
    pub state: Map<ChunkView, PendingView<S>>,
}

/// The detectors that work on chunks of a type.
pub open spec fn detectors_of_type(
    chunker_types: Map<Seq<char>, ChunkerType>,
    chunker_type: ChunkerType,
) -> Set<Seq<char>> {
    chunker_types.dom().filter(|id: Seq<char>| chunker_types[id] == chunker_type)
}

/// `chunk` waits, and goes before every other chunk that waits.
pub open spec fn is_first<S>(state: Map<ChunkView, PendingView<S>>, chunk: ChunkView) -> bool {
    &&& state.contains_key(chunk)
    &&& forall|other: ChunkView| #[trigger]
        state.contains_key(other) ==> other == chunk || chunk.precedes(other)
}

impl<S> BatcherView<S> {
    /// How many reports a chunk of a type needs.
    pub open spec fn reports_needed(self, chunker_type: ChunkerType) -> nat {
        detectors_of_type(self.chunker_types, chunker_type).len()
    }

    /// What holds of every batcher: finitely many chunks wait, each with at least
    /// one report and of a type that some detector works on.
    pub open spec fn well_formed(self) -> bool {
        &&& self.chunker_types.dom().finite()
        &&& self.state.dom().finite()
        &&& forall|chunk: ChunkView| #[trigger]
            self.state.contains_key(chunk) ==> self.state[chunk].reports.len() >= 1
                && self.reports_needed(self.state[chunk].chunker_type) >= 1
    }

    /// The batcher after a report. One by a detector whose chunker type is not
    /// known is dropped. The first report on a chunk settles the chunk's type.
    pub open spec fn after_push(
        self,
        detector_id: Seq<char>,
        chunk: ChunkView,
        detections: Seq<Detection<S>>,
    ) -> BatcherView<S> {
        if !self.chunker_types.contains_key(detector_id) {
            self
        } else {
            let pending = if self.state.contains_key(chunk) {
                PendingView {
                    chunker_type: self.state[chunk].chunker_type,
                    reports: self.state[chunk].reports.push(detections),
                }
            } else {
                PendingView {
                    chunker_type: self.chunker_types[detector_id],
                    reports: seq![detections],
                }
            };
            BatcherView { state: self.state.insert(chunk, pending), ..self }
        }
    }

    /// Whether `chunk` is the next to be handed out: it is the first that waits and
    /// has all its reports; a chunk that holds the whole input must also be the
    /// only one that waits.
    pub open spec fn is_ready(self, chunk: ChunkView) -> bool {
        let pending = self.state[chunk];
        &&& is_first(self.state, chunk)
        &&& pending.reports.len() == self.reports_needed(pending.chunker_type)
        &&& pending.chunker_type == ChunkerType::All ==> self.state.len() == 1
    }

    /// Some chunk can be handed out.
    pub open spec fn has_ready(self) -> bool {
        exists|chunk: ChunkView| #[trigger] self.is_ready(chunk)
    }

    /// The batcher after `chunk` has been handed out.
    pub open spec fn after_pop(self, chunk: ChunkView) -> BatcherView<S> {
        BatcherView { state: self.state.remove(chunk), ..self }
    }
}

impl<S> Pending<S> {
    spec fn entry(self) -> (ChunkView, PendingView<S>) {
        (
            self.chunk@,
            PendingView {
                chunker_type: self.chunker_type,
                reports: self.reports@.map_values(|report: Detections<S>| report@),
            },
        )
    }
}

/// The waiting chunks of a list, each with what has been reported on it.
spec fn waiting<S>(state: Seq<Pending<S>>) -> Seq<(ChunkView, PendingView<S>)> {
    state.map_values(|pending: Pending<S>| pending.entry())
}

/// Each entry goes before those that follow it.
spec fn in_order<S>(entries: Seq<(ChunkView, PendingView<S>)>) -> bool {
    forall|i: int, j: int|
        0 <= i < j < entries.len() ==> (#[trigger] entries[i]).0.precedes(
            (#[trigger] entries[j]).0,
        )
}

proof fn lemma_order_gives_distinct_keys<S>(entries: Seq<(ChunkView, PendingView<S>)>)
    requires
        in_order(entries),
    ensures
        assoc::distinct_keys(entries),
{
    assert forall|i: int, j: int| 0 <= i < j < entries.len() implies (#[trigger] entries[i]).0 != (
    #[trigger] entries[j]).0 by {
        law_chunk_order_is_total(entries[i].0, entries[j].0);
    }
}

/// The first entry of an ordered list is the first chunk.
proof fn lemma_head_is_first<S>(entries: Seq<(ChunkView, PendingView<S>)>)
    requires
        in_order(entries),
        entries.len() > 0,
    ensures
        is_first(assoc::as_map(entries), entries[0].0),
{
    lemma_order_gives_distinct_keys(entries);
    assoc::lemma_entry(entries, 0);
    assert forall|other: ChunkView| #[trigger]
        assoc::as_map(entries).contains_key(other) implies other == entries[0].0
        || entries[0].0.precedes(other) by {
        assert(assoc::has_key(entries, other));
        let at = assoc::position(entries, other);
        assert(entries[at].0 == other);
    }
}

proof fn lemma_nothing_waits<S>()
    ensures
        assoc::as_map(waiting(Seq::<Pending<S>>::empty())) == Map::<
            ChunkView,
            PendingView<S>,
        >::empty(),
{
    assert(assoc::as_map(waiting(Seq::<Pending<S>>::empty())) =~= Map::<
        ChunkView,
        PendingView<S>,
    >::empty());
}

/// At most one chunk is the first.
proof fn lemma_first_is_unique<S>(
    state: Map<ChunkView, PendingView<S>>,
    a: ChunkView,
    b: ChunkView,
)
    requires
        is_first(state, a),
        is_first(state, b),
    ensures
        a == b,
{
    law_chunk_order_is_total(a, b);
}

impl DetectorCount {
    spec fn count(self, chunker_type: ChunkerType) -> usize {
        match chunker_type {
            ChunkerType::Sentence => self.sentence,
            ChunkerType::All => self.all,
        }
    }

    fn get(&self, chunker_type: ChunkerType) -> (count: usize)
        ensures
            count == self.count(chunker_type),
    {
        match chunker_type {
            ChunkerType::Sentence => self.sentence,
            ChunkerType::All => self.all,
        }
    }
}

/// The detectors of a type among the first `n` entries.
spec fn seen_of_type(
    entries: Seq<(Seq<char>, ChunkerType)>,
    n: int,
    chunker_type: ChunkerType,
) -> Set<Seq<char>>
    decreases n,
{
    if n <= 0 {
        Set::empty()
    } else if entries[n - 1].1 == chunker_type {
        seen_of_type(entries, n - 1, chunker_type).insert(entries[n - 1].0)
    } else {
        seen_of_type(entries, n - 1, chunker_type)
    }
}

proof fn lemma_seen_of_type(
    entries: Seq<(Seq<char>, ChunkerType)>,
    n: int,
    chunker_type: ChunkerType,
)
    requires
        0 <= n <= entries.len(),
    ensures
        seen_of_type(entries, n, chunker_type).finite(),
        seen_of_type(entries, n, chunker_type).len() <= n,
        forall|id: Seq<char>| #[trigger]
            seen_of_type(entries, n, chunker_type).contains(id) <==> exists|i: int|
                0 <= i < n && (#[trigger] entries[i]).0 == id && entries[i].1 == chunker_type,
    decreases n,
{
    if n > 0 {
        lemma_seen_of_type(entries, n - 1, chunker_type);
    }
}

/// One more entry counts for its own type and for no other.
proof fn lemma_see_one_more(
    entries: Seq<(Seq<char>, ChunkerType)>,
    n: int,
    chunker_type: ChunkerType,
)
    requires
        assoc::distinct_keys(entries),
        0 <= n < entries.len(),
    ensures
        seen_of_type(entries, n + 1, chunker_type).len() == seen_of_type(
            entries,
            n,
            chunker_type,
        ).len() + if entries[n].1 == chunker_type {
            1int
        } else {
            0
        },
{
    lemma_seen_of_type(entries, n, chunker_type);
    if seen_of_type(entries, n, chunker_type).contains(entries[n].0) {
        let i = choose|i: int|
            0 <= i < n && (#[trigger] entries[i]).0 == entries[n].0 && entries[i].1
                == chunker_type;
        assert(entries[i].0 != entries[n].0);
    }
}

proof fn lemma_all_seen(entries: Seq<(Seq<char>, ChunkerType)>, chunker_type: ChunkerType)
    requires
        assoc::distinct_keys(entries),
    ensures
        seen_of_type(entries, entries.len() as int, chunker_type) == detectors_of_type(
            assoc::as_map(entries),
            chunker_type,
        ),
{
    let seen = seen_of_type(entries, entries.len() as int, chunker_type);
    let wanted = detectors_of_type(assoc::as_map(entries), chunker_type);
    lemma_seen_of_type(entries, entries.len() as int, chunker_type);
    assert forall|id: Seq<char>| #[trigger] seen.contains(id) == wanted.contains(id) by {
        if seen.contains(id) {
            let i = choose|i: int|
                0 <= i < entries.len() && (#[trigger] entries[i]).0 == id && entries[i].1
                    == chunker_type;
            assoc::lemma_entry(entries, i);
        }
        if wanted.contains(id) {
            assert(assoc::has_key(entries, id));
            let i = assoc::position(entries, id);
            assert(entries[i].0 == id);
        }
    }
    assert(seen =~= wanted);
}

fn count_detectors(chunker_types: &StringMap<ChunkerType>) -> (count: DetectorCount)
    ensures
        forall|chunker_type: ChunkerType| #[trigger]
            count.count(chunker_type) == detectors_of_type(chunker_types@, chunker_type).len(),
        chunker_types@.dom().finite(),
{
    let ghost entries = chunker_types.entries();
    let mut count = DetectorCount { sentence: 0, all: 0 };
    let len: usize = chunker_types.len();
    for at in 0..len
        invariant
            len == entries.len(),
            entries == chunker_types.entries(),
            assoc::distinct_keys(entries),
            count.sentence == seen_of_type(entries, at as int, ChunkerType::Sentence).len(),
            count.all == seen_of_type(entries, at as int, ChunkerType::All).len(),
    {
        proof {
            lemma_see_one_more(entries, at as int, ChunkerType::Sentence);
            lemma_see_one_more(entries, at as int, ChunkerType::All);
            lemma_seen_of_type(entries, at as int, ChunkerType::Sentence);
            lemma_seen_of_type(entries, at as int, ChunkerType::All);
        }
        match chunker_types.entry(at).1 {
            ChunkerType::Sentence => {
                count.sentence = count.sentence + 1;
            },
            ChunkerType::All => {
                count.all = count.all + 1;
            },
        }
    }
    proof {
        assoc::lemma_size(entries);
        lemma_all_seen(entries, ChunkerType::Sentence);
        lemma_all_seen(entries, ChunkerType::All);
        assert forall|chunker_type: ChunkerType| #[trigger]
            count.count(chunker_type) == detectors_of_type(
                chunker_types@,
                chunker_type,
            ).len() by {
            match chunker_type {
                ChunkerType::Sentence => {},
                ChunkerType::All => {},
            }
        }
    }
    count
}

/// The detections of all reports, one report after the other.
fn flatten_reports<S>(reports: Vec<Detections<S>>) -> (detections: Detections<S>)
    ensures
        detections@ == reports@.map_values(|report: Detections<S>| report@).flatten(),
{
    let ghost all = reports@.map_values(|report: Detections<S>| report@);
    let mut detections: Detections<S> = Vec::new();
    for report in walk: reports
        invariant
            all == reports@.map_values(|report: Detections<S>| report@),
            walk.seq() == reports@,
            detections@ == all.take(walk.index() as int).flatten(),
    {
        let mut rest = report;
        proof {
            let seen = all.take(walk.index() as int);
            assert(all.take(walk.index() as int + 1) =~= seen.push(rest@));
            seen.lemma_flatten_push(rest@);
        }
        detections.append(&mut rest);
    }
    assert(all.take(reports@.len() as int) =~= all);
    detections
}

impl<S> View for ChatCompletionBatcher<S> {
    type V = BatcherView<S>;

    closed spec fn view(&self) -> BatcherView<S> {
        BatcherView {
            detectors: self.detectors@.map_values(|id: DetectorId| id@),
            chunker_types: self.chunker_types@,
            state: assoc::as_map(waiting(self.state@)),
        }
    }
}

impl<S> ChatCompletionBatcher<S> {
    #[verifier::type_invariant]
    spec fn invariant_holds(self) -> bool {
        &&& in_order(waiting(self.state@))
        &&& self@.well_formed()
        &&& forall|chunker_type: ChunkerType| #[trigger]
            self.chunk_detector_count.count(chunker_type) == self@.reports_needed(chunker_type)
    }

    /// A batcher for `detectors`, each of which works on chunks of the type that
    /// `chunker_types` gives it.
    pub fn new(detectors: Vec<DetectorId>, chunker_types: StringMap<ChunkerType>) -> (batcher: Self)
        ensures
            batcher@.detectors == detectors@.map_values(|id: DetectorId| id@),
            batcher@.chunker_types == chunker_types@,
            batcher@.state == Map::<ChunkView, PendingView<S>>::empty(),
            batcher@.well_formed(),
            forall|chunker_type: ChunkerType| #[trigger]
                batcher@.reports_needed(chunker_type) == chunker_types@.dom().filter(
                    |id: Seq<char>| chunker_types@[id] == chunker_type,
                ).len(),
    {
        let chunk_detector_count = count_detectors(&chunker_types);
        let state: Vec<Pending<S>> = Vec::new();
        proof {
            lemma_nothing_waits::<S>();
        }
        ChatCompletionBatcher { detectors, chunker_types, state, chunk_detector_count }
    }

    /// Whether no chunk waits.
    pub fn is_empty(&self) -> (empty: bool)
        ensures
            empty == (self@.state == Map::<ChunkView, PendingView<S>>::empty()),
    {
        proof {
            use_type_invariant(self);
            let entries = waiting(self.state@);
            if entries.len() == 0 {
                assert(self@.state =~= Map::empty());
            } else {
                lemma_head_is_first(entries);
            }
        }
        self.state.len() == 0
    }

    /// Where `chunk` stands in `state` or, if it is not there, where it belongs.
    fn place_of(state: &Vec<Pending<S>>, chunk: &Chunk) -> (place: (usize, bool))
        requires
            in_order(waiting(state@)),
        ensures
            place.0 <= state@.len(),
            place.1 ==> place.0 < state@.len() && state@[place.0 as int].chunk@ == chunk@,
            !place.1 ==> !assoc::has_key(waiting(state@), chunk@),
            forall|i: int| 0 <= i < place.0 ==> (#[trigger] state@[i]).chunk@.precedes(chunk@),
            forall|i: int|
                place.0 <= i < state@.len() ==> chunk@.precedes((#[trigger] state@[i]).chunk@)
                    || (place.1 && i == place.0),
    {
        let ghost entries = waiting(state@);
        let mut at: usize = 0;
        while at < state.len() && state[at].chunk.goes_before(chunk)
            invariant
                at <= state@.len(),
                forall|i: int| 0 <= i < at ==> (#[trigger] state@[i]).chunk@.precedes(chunk@),
            decreases state.len() - at,
        {
            at = at + 1;
        }
        let found = at < state.len() && !chunk.goes_before(&state[at].chunk);
        proof {
            assert(forall|i: int|
                0 <= i < state@.len() ==> (#[trigger] entries[i]).0 == state@[i].chunk@);
            if at < state.len() {
                law_chunk_order_is_total(chunk@, state@[at as int].chunk@);
            }
            assert forall|i: int| at < i < state@.len() implies chunk@.precedes(
                (#[trigger] state@[i]).chunk@,
            ) by {
                assert(entries[at as int].0.precedes(entries[i].0));
                if !found {
                    law_chunk_order_is_transitive(
                        chunk@,
                        state@[at as int].chunk@,
                        state@[i].chunk@,
                    );
                }
            }
            if !found && assoc::has_key(entries, chunk@) {
                let i = assoc::position(entries, chunk@);
                assert(entries[i].0 == chunk@);
                law_chunk_order_is_total(chunk@, state@[i].chunk@);
            }
        }
        (at, found)
    }

    /// Takes in the detections of one detector for one chunk.
    pub fn push(
        &mut self,
        _input_id: InputId,
        detector_id: DetectorId,
        chunk: Chunk,
        detections: Detections<S>,
    )
        ensures
            final(self)@ == old(self)@.after_push(detector_id@, chunk@, detections@),
            final(self)@.well_formed(),
    {
        proof {
            use_type_invariant(&*self);
        }
        let chunker_type = match self.chunker_types.get(&detector_id) {
            Some(chunker_type) => *chunker_type,
            None => {
                return ;
            },
        };
        let ghost before = self@;
        let ghost entries = waiting(self.state@);
        let ghost after = before.after_push(detector_id@, chunk@, detections@);
        let ghost chunk_view = chunk@;
        let ghost report = detections@;
        let mut state: Vec<Pending<S>> = Vec::new();
        proof {
            lemma_nothing_waits::<S>();
        }
        std::mem::swap(&mut state, &mut self.state);
        let (at, found) = Self::place_of(&state, &chunk);
        proof {
            lemma_order_gives_distinct_keys(entries);
        }
        if found {
            let mut pending = state.remove(at);
            let ghost was = pending.entry();
            pending.reports.push(detections);
            state.insert(at, pending);
            proof {
                assoc::lemma_entry(entries, at as int);
                assert(pending.entry().1.reports =~= was.1.reports.push(report));
                assoc::lemma_update(entries, at as int, pending.entry().1);
                assert(waiting(state@) =~= entries.update(at as int, pending.entry()));
            }
        } else {
            let mut reports: Vec<Detections<S>> = Vec::new();
            reports.push(detections);
            let pending = Pending { chunk, chunker_type, reports };
            let ghost entry = pending.entry();
            state.insert(at, pending);
            proof {
                assert(entry.1.reports =~= seq![report]);
                assoc::lemma_insert(entries, at as int, chunk_view, entry.1);
                assert(waiting(state@) =~= entries.insert(at as int, entry));
                assert forall|i: int, j: int|
                    0 <= i < j < waiting(state@).len() implies (#[trigger] waiting(
                    state@,
                )[i]).0.precedes((#[trigger] waiting(state@)[j]).0) by {
                    if i != at {
                        assert(waiting(state@)[i] == entries[if i < at { i } else { i - 1 }]);
                    }
                    if j != at {
                        assert(waiting(state@)[j] == entries[if j < at { j } else { j - 1 }]);
                    }
                }
            }
        }
        proof {
            assert(assoc::as_map(waiting(state@)) == after.state);
            law_push_keeps_well_formed(before, detector_id@, chunk_view, report);
        }
        self.state = state;
    }

    /// Hands out the next chunk that is ready, with its detections in the order of
    /// their starts.
    pub fn pop_batch(&mut self) -> (batch: Option<(Chunk, Detections<S>)>)
        ensures
            batch is Some <==> old(self)@.has_ready(),
            match batch {
                Some((chunk, detections)) => {
                    &&& old(self)@.is_ready(chunk@)
                    &&& is_stable_sort(old(self)@.state[chunk@].reports.flatten(), detections@)
                    &&& final(self)@ == old(self)@.after_pop(chunk@)
                    // each detector of the chunk's type has reported
                    &&& old(self)@.state[chunk@].reports.len() == old(self)@.reports_needed(
                        old(self)@.state[chunk@].chunker_type,
                    )
                    // no chunk that waits begins earlier in the input
                    &&& forall|other: ChunkView| #[trigger]
                        old(self)@.state.contains_key(other) ==> chunk.input_start_index
                            <= other.input_start_index
                    // the whole input goes out alone
                    &&& old(self)@.state[chunk@].chunker_type == ChunkerType::All ==> forall|
                        other: ChunkView,
                    | #[trigger] old(self)@.state.contains_key(other) ==> other == chunk@
                    // all detections, by their starts
                    &&& detections@.to_multiset()
                        == old(self)@.state[chunk@].reports.flatten().to_multiset()
                    &&& forall|i: int, j: int|
                        0 <= i < j < detections@.len() ==> match (
                            (#[trigger] detections@[i]).start,
                            (#[trigger] detections@[j]).start,
                        ) {
                            (Some(x), Some(y)) => x <= y,
                            (Some(_), None) => false,
                            (None, _) => true,
                        }
                },
                None => final(self)@ == old(self)@,
            },
            final(self)@.well_formed(),
    {
        proof {
            use_type_invariant(&*self);
        }
        let ghost before = self@;
        let ghost entries = waiting(self.state@);
        if self.state.len() == 0 {
            assert(!before.has_ready()) by {
                if before.has_ready() {
                    let chunk = choose|chunk: ChunkView| #[trigger] before.is_ready(chunk);
                    assert(assoc::has_key(entries, chunk));
                }
            }
            return None;
        }
        proof {
            lemma_order_gives_distinct_keys(entries);
            lemma_head_is_first(entries);
            assoc::lemma_entry(entries, 0);
            assoc::lemma_size(entries);
        }
        let first = &self.state[0];
        let complete = first.reports.len() == self.chunk_detector_count.get(first.chunker_type);
        let held_back = first.chunker_type == ChunkerType::All && self.state.len() != 1;
        proof {
            let head = entries[0].0;
            assert(before.is_ready(head) == (complete && !held_back));
            if before.has_ready() {
                let chunk = choose|chunk: ChunkView| #[trigger] before.is_ready(chunk);
                lemma_first_is_unique(before.state, chunk, head);
            }
        }
        if !complete || held_back {
            return None;
        }
        let mut state: Vec<Pending<S>> = Vec::new();
        proof {
            lemma_nothing_waits::<S>();
        }
        std::mem::swap(&mut state, &mut self.state);
        let pending = state.remove(0);
        proof {
            assoc::lemma_remove(entries, 0);
            assert(waiting(state@) =~= entries.remove(0));
            assert(assoc::as_map(waiting(state@)) == before.after_pop(entries[0].0).state);
        }
        self.state = state;
        let mut detections = flatten_reports(pending.reports);
        sort_by_start(&mut detections);
        proof {
            let head = entries[0].0;
            law_sort_keeps_detections(before.state[head].reports.flatten(), detections@);
            assert forall|other: ChunkView| #[trigger] before.state.contains_key(other) implies
                head.input_start_index <= other.input_start_index by {
                law_chunks_go_by_place(other, head);
                law_chunk_order_is_total(other, head);
            }
            if before.state[head].chunker_type == ChunkerType::All {
                assert forall|other: ChunkView| #[trigger]
                    before.state.contains_key(other) implies other == head by {
                    assert(assoc::has_key(entries, other));
                }
            }
        }
        Some((pending.chunk, detections))
    }
}

/// The reports needed for a type are as many as the names that are mapped to it.
pub proof fn law_reports_needed_is_number_of_names<S>(
    batcher: BatcherView<S>,
    chunker_type: ChunkerType,
)
    ensures
        batcher.reports_needed(chunker_type) == batcher.chunker_types.dom().filter(
            |id: Seq<char>| batcher.chunker_types[id] == chunker_type,
        ).len(),
{
    assert(detectors_of_type(batcher.chunker_types, chunker_type)
        =~= batcher.chunker_types.dom().filter(
        |id: Seq<char>| batcher.chunker_types[id] == chunker_type,
    ));
}

/// A report leaves a batcher well-formed.
pub proof fn law_push_keeps_well_formed<S>(
    batcher: BatcherView<S>,
    detector_id: Seq<char>,
    chunk: ChunkView,
    detections: Seq<Detection<S>>,
)
    requires
        batcher.well_formed(),
    ensures
        batcher.after_push(detector_id, chunk, detections).well_formed(),
{
    if batcher.chunker_types.contains_key(detector_id) {
        let chunker_type = batcher.chunker_types[detector_id];
        let peers = detectors_of_type(batcher.chunker_types, chunker_type);
        assert(peers.contains(detector_id));
        assert(peers.finite());
        assert(peers.len() >= 1);
    }
}

} // verus!
