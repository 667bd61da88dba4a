//! Detections and their order within a batch.

use vstd::prelude::*;

verus! {

/// What a detector found in a chunk. `S` is the type of the detector's score,
/// which nothing here reads.
#[derive(Debug, Clone, PartialEq)]
pub struct Detection<S> {
    /// Where the detection begins, if it has a place in the text.
    pub start: Option<usize>,
    /// Where the detection ends, if it has a place in the text.
    pub end: Option<usize>,
    /// The detector that made it.
    pub detector_id: Option<String>,
    /// What kind of detection it is.
    pub detection_type: String,
    /// How confident the detector is.
    pub score: S,
}

/// The detections of one detector for one chunk.
pub type Detections<S> = Vec<Detection<S>>;

/// Where a start position stands in the order: no position comes first.
pub open spec fn start_rank(start: Option<usize>) -> int {
    match start {
        None => -1,
        Some(position) => position as int,
    }
}

/// The detections of a sequence whose start has the given rank.
pub open spec fn at_rank<S>(detections: Seq<Detection<S>>, rank: int) -> Seq<Detection<S>> {
    detections.filter(|d: Detection<S>| start_rank(d.start) == rank)
}

/// The starts never go back.
pub open spec fn sorted_by_start<S>(detections: Seq<Detection<S>>) -> bool {
    forall|i: int, j: int|
        0 <= i < j < detections.len() ==> start_rank((#[trigger] detections[i]).start)
            <= start_rank((#[trigger] detections[j]).start)
}

/// `sorted` holds the detections of `given`, ordered by start, those with equal
/// starts in the order in which `given` has them.
pub open spec fn is_stable_sort<S>(given: Seq<Detection<S>>, sorted: Seq<Detection<S>>) -> bool {
    &&& sorted_by_start(sorted)
    &&& forall|rank: int| #[trigger] at_rank(sorted, rank) == at_rank(given, rank)
}

/// Moving an item back over items of greater rank leaves each rank as it was.
proof fn lemma_move_back<S>(s: Seq<Detection<S>>, from: int, to: int, rank: int)
    requires
        0 <= to <= from < s.len(),
        forall|j: int|
            to <= j < from ==> start_rank((#[trigger] s[j]).start) > start_rank(s[from].start),
    ensures
        at_rank(s.remove(from).insert(to, s[from]), rank) == at_rank(s, rank),
{
    let p = |d: Detection<S>| start_rank(d.start) == rank;
    let moved = s.remove(from).insert(to, s[from]);
    let head = s.take(to);
    let over = s.subrange(to, from);
    let item = seq![s[from]];
    let tail = s.skip(from + 1);
    assert(s =~= head + over + item + tail);
    assert(moved =~= head + item + over + tail);
    Seq::filter_distributes_over_add(head + over + item, tail, p);
    Seq::filter_distributes_over_add(head + over, item, p);
    Seq::filter_distributes_over_add(head, over, p);
    Seq::filter_distributes_over_add(head + item + over, tail, p);
    Seq::filter_distributes_over_add(head + item, over, p);
    Seq::filter_distributes_over_add(head, item, p);
    if rank == start_rank(s[from].start) {
        assert forall|j: int| 0 <= j < over.len() implies !p(#[trigger] over[j]) by {
            assert(over[j] == s[to + j]);
        }
        lemma_none_kept(over, p);
    } else {
        lemma_none_kept(item, p);
    }
    assert(at_rank(moved, rank) =~= at_rank(s, rank));
}

proof fn lemma_none_kept<A>(s: Seq<A>, p: spec_fn(A) -> bool)
    requires
        forall|j: int| 0 <= j < s.len() ==> !p(#[trigger] s[j]),
    ensures
        s.filter(p) == Seq::<A>::empty(),
    decreases s.len(),
{
    reveal(Seq::filter);
    if s.len() > 0 {
        lemma_none_kept(s.drop_last(), p);
    }
}

fn starts_after(a: &Option<usize>, b: &Option<usize>) -> (after: bool)
    ensures
        after == (start_rank(*a) > start_rank(*b)),
{
    match (a, b) {
        (None, _) => false,
        (Some(_), None) => true,
        (Some(x), Some(y)) => *x > *y,
    }
}

/// Orders detections by their start; those with equal starts keep their order.
pub fn sort_by_start<S>(detections: &mut Detections<S>)
    ensures
        is_stable_sort(old(detections)@, final(detections)@),
        forall|i: int, j: int|
            0 <= i < j < final(detections)@.len() ==> match (
                (#[trigger] final(detections)@[i]).start,
                (#[trigger] final(detections)@[j]).start,
            ) {
                (Some(x), Some(y)) => x <= y,
                (Some(_), None) => false,
                (None, _) => true,
            },
{
    let count: usize = detections.len();
    for next in 0..count
        invariant
            count == detections@.len(),
            sorted_by_start(detections@.take(next as int)),
            forall|rank: int| #[trigger]
                at_rank(detections@, rank) == at_rank(old(detections)@, rank),
    {
        let ghost before = detections@;
        assert(forall|j: int| 0 <= j < next ==> before.take(next as int)[j] == before[j]);
        let mut to: usize = next;
        while to > 0 && starts_after(&detections[to - 1].start, &detections[next].start)
            invariant
                to <= next < count,
                count == detections@.len(),
                detections@ == before,
                forall|j: int|
                    to <= j < next ==> start_rank((#[trigger] before[j]).start) > start_rank(
                        before[next as int].start,
                    ),
            decreases to,
        {
            to = to - 1;
        }
        let item = detections.remove(next);
        detections.insert(to, item);
        proof {
            assert forall|rank: int| #[trigger] at_rank(detections@, rank) == at_rank(
                old(detections)@,
                rank,
            ) by {
                lemma_move_back(before, next as int, to as int, rank);
                assert(at_rank(before, rank) == at_rank(old(detections)@, rank));
            }
            let sorted = detections@.take(next as int + 1);
            let prefix = before.take(next as int);
            assert forall|i: int, j: int| 0 <= i < j < sorted.len() implies start_rank(
                (#[trigger] sorted[i]).start,
            ) <= start_rank((#[trigger] sorted[j]).start) by {
                if i != to {
                    assert(sorted[i] == prefix[if i < to { i } else { i - 1 }]);
                }
                if j != to {
                    assert(sorted[j] == prefix[if j < to { j } else { j - 1 }]);
                }
                if j == to {
                    assert(sorted[i] == prefix[i]);
                    assert(to > 0 && start_rank(prefix[to as int - 1].start) <= start_rank(
                        before[next as int].start,
                    ));
                    if i < to - 1 {
                        assert(start_rank(prefix[i].start) <= start_rank(
                            prefix[to as int - 1].start,
                        ));
                    }
                }
            }
        }
    }
    assert(detections@.take(count as int) == detections@);
    proof {
        law_sorted_means_by_position(old(detections)@, detections@);
    }
}

/// Dropping what a filter does not keep leaves the number of each kept item.
proof fn lemma_filter_keeps_count<A>(s: Seq<A>, p: spec_fn(A) -> bool, item: A)
    requires
        p(item),
    ensures
        s.filter(p).to_multiset().count(item) == s.to_multiset().count(item),
    decreases s.len(),
{
    broadcast use vstd::seq_lib::group_to_multiset_ensures;

    reveal(Seq::filter);
    if s.len() > 0 {
        let rest = s.drop_last();
        lemma_filter_keeps_count(rest, p, item);
        assert(s =~= rest.push(s.last()));
    }
}

/// Sorting loses no detection and adds none.
pub proof fn law_sort_keeps_detections<S>(given: Seq<Detection<S>>, sorted: Seq<Detection<S>>)
    requires
        is_stable_sort(given, sorted),
    ensures
        sorted.to_multiset() == given.to_multiset(),
        sorted.len() == given.len(),
{
    broadcast use vstd::seq_lib::group_to_multiset_ensures;

    assert forall|item: Detection<S>| #[trigger]
        sorted.to_multiset().count(item) == given.to_multiset().count(item) by {
        let rank = start_rank(item.start);
        let p = |d: Detection<S>| start_rank(d.start) == rank;
        lemma_filter_keeps_count(sorted, p, item);
        lemma_filter_keeps_count(given, p, item);
        assert(at_rank(sorted, rank) == at_rank(given, rank));
    }
    assert(sorted.to_multiset() =~= given.to_multiset());
    assert(sorted.len() == sorted.to_multiset().len());
    assert(given.len() == given.to_multiset().len());
}

proof fn lemma_rank_of_last<S>(s: Seq<Detection<S>>)
    requires
        s.len() > 0,
    ensures
        at_rank(s, start_rank(s.last().start)).len() > 0,
        at_rank(s, start_rank(s.last().start)).last() == s.last(),
        forall|rank: int|
            #![trigger at_rank(s.drop_last(), rank)]
            at_rank(s, rank) == if rank == start_rank(s.last().start) {
                at_rank(s.drop_last(), rank).push(s.last())
            } else {
                at_rank(s.drop_last(), rank)
            },
{
    reveal(Seq::filter);
}

proof fn lemma_rank_is_met<S>(s: Seq<Detection<S>>, rank: int)
    requires
        at_rank(s, rank).len() > 0,
    ensures
        exists|i: int| 0 <= i < s.len() && start_rank((#[trigger] s[i]).start) == rank,
    decreases s.len(),
{
    reveal(Seq::filter);
    if start_rank(s.last().start) != rank {
        lemma_rank_is_met(s.drop_last(), rank);
        let i = choose|i: int|
            0 <= i < s.drop_last().len() && start_rank((#[trigger] s.drop_last()[i]).start) == rank;
        assert(start_rank(s[i].start) == rank);
    } else {
        assert(start_rank(s[s.len() - 1].start) == rank);
    }
}

/// There is one way only to order detections by start and keep the order of those
/// with equal starts.
pub proof fn law_sort_is_unique<S>(
    given: Seq<Detection<S>>,
    a: Seq<Detection<S>>,
    b: Seq<Detection<S>>,
)
    requires
        is_stable_sort(given, a),
        is_stable_sort(given, b),
    ensures
        a == b,
    decreases a.len(),
{
    law_sort_keeps_detections(given, a);
    law_sort_keeps_detections(given, b);
    if a.len() > 0 {
        let last_a = start_rank(a.last().start);
        let last_b = start_rank(b.last().start);
        lemma_rank_of_last(a);
        lemma_rank_of_last(b);
        assert(at_rank(a, last_a) == at_rank(given, last_a));
        assert(at_rank(b, last_a) == at_rank(given, last_a));
        assert(at_rank(a, last_b) == at_rank(given, last_b));
        assert(at_rank(b, last_b) == at_rank(given, last_b));
        lemma_rank_is_met(b, last_a);
        lemma_rank_is_met(a, last_b);
        assert(last_a == last_b);
        assert(a.last() == b.last());
        let rest = a.drop_last();
        assert forall|rank: int| #[trigger] at_rank(b.drop_last(), rank) == at_rank(
            rest,
            rank,
        ) by {
            assert(at_rank(a, rank) == at_rank(given, rank));
            assert(at_rank(b, rank) == at_rank(given, rank));
            if rank == last_a {
                assert(at_rank(a, rank) == at_rank(rest, rank).push(a.last()));
                assert(at_rank(rest, rank) =~= at_rank(a, rank).drop_last());
                assert(at_rank(b.drop_last(), rank) =~= at_rank(b, rank).drop_last());
            } else {
                assert(at_rank(a, rank) == at_rank(rest, rank));
            }
        }
        law_sort_is_unique(rest, rest, b.drop_last());
        assert(a =~= rest.push(a.last()));
        assert(b =~= b.drop_last().push(b.last()));
    }
}

/// No start comes before every start, and starts go by their position.
pub proof fn law_rank_goes_by_position(x: usize, y: usize)
    ensures
        start_rank(None) < start_rank(Some(x)),
        x < y <==> start_rank(Some(x)) < start_rank(Some(y)),
{
}

/// In sorted detections no later one starts earlier, and none without a start comes
/// after one with a start.
pub proof fn law_sorted_means_by_position<S>(
    given: Seq<Detection<S>>,
    sorted: Seq<Detection<S>>,
)
    requires
        is_stable_sort(given, sorted),
    ensures
        forall|i: int, j: int|
            0 <= i < j < sorted.len() ==> match (
                (#[trigger] sorted[i]).start,
                (#[trigger] sorted[j]).start,
            ) {
                (Some(x), Some(y)) => x <= y,
                (Some(_), None) => false,
                (None, _) => true,
            },
{
}

/// The sorted detections with a start, or with none, are the given ones with it, in the
/// given order.
pub proof fn law_equal_starts_keep_their_order<S>(
    given: Seq<Detection<S>>,
    sorted: Seq<Detection<S>>,
    start: Option<usize>,
)
    requires
        is_stable_sort(given, sorted),
    ensures
        sorted.filter(|d: Detection<S>| d.start == start) == given.filter(
            |d: Detection<S>| d.start == start,
        ),
{
    let rank = start_rank(start);
    let by_start = |d: Detection<S>| d.start == start;
    let by_rank = |d: Detection<S>| start_rank(d.start) == rank;
    assert(by_start =~= by_rank);
    assert(at_rank(sorted, rank) == at_rank(given, rank));
}

} // verus!
