//! Chunks of the input and the order in which they are handed out.

use vstd::prelude::*;

verus! {

/// A piece of the input text that detectors look at.
///
/// Chunks are ordered by their fields, from the first to the last.
#[derive(Debug, Clone, PartialEq, Eq, PartialOrd, Ord, Hash)]
pub struct Chunk {
    /// Index of the input where the chunk begins.
    pub input_start_index: usize,
    /// Index of the input where the chunk ends.
    pub input_end_index: usize,
    /// Index of the codepoint where the chunk begins.
    pub start: usize,
    /// Index of the codepoint where the chunk ends.
    pub end: usize,
    /// The text of the chunk.
    pub text: String,
}

/// A chunk as a mathematical value.
pub struct ChunkView {
    pub input_start_index: int,
    pub input_end_index: int,
    pub start: int,
    pub end: int,
    pub text: Seq<char>,
}

impl View for Chunk {
    type V = ChunkView;

    open spec fn view(&self) -> ChunkView {
        ChunkView {
            input_start_index: self.input_start_index as int,
            input_end_index: self.input_end_index as int,
            start: self.start as int,
            end: self.end as int,
            text: self.text@,
        }
    }
}

/// Lexicographic order of texts by the code points of their characters.
pub open spec fn text_precedes(a: Seq<char>, b: Seq<char>) -> bool
    decreases a.len(),
{
    if b.len() == 0 {
        false
    } else if a.len() == 0 {
        true
    } else if a[0] != b[0] {
        a[0] < b[0]
    } else {
        text_precedes(a.drop_first(), b.drop_first())
    }
}

impl ChunkView {
    /// `self` is handed out before `other`.
    pub open spec fn precedes(self, other: ChunkView) -> bool {
        if self.input_start_index != other.input_start_index {
            self.input_start_index < other.input_start_index
        } else if self.input_end_index != other.input_end_index {
            self.input_end_index < other.input_end_index
        } else if self.start != other.start {
            self.start < other.start
        } else if self.end != other.end {
            self.end < other.end
        } else {
            text_precedes(self.text, other.text)
        }
    }
}

proof fn lemma_text_order_total(a: Seq<char>, b: Seq<char>)
    ensures
        text_precedes(a, b) || text_precedes(b, a) || a == b,
        !(text_precedes(a, b) && text_precedes(b, a)),
        a == b ==> !text_precedes(a, b),
    decreases a.len(),
{
    if a.len() > 0 && b.len() > 0 && a[0] == b[0] {
        lemma_text_order_total(a.drop_first(), b.drop_first());
        if a.drop_first() == b.drop_first() {
            assert(a =~= seq![a[0]] + a.drop_first());
            assert(b =~= seq![b[0]] + b.drop_first());
        }
    } else if a.len() == 0 && b.len() == 0 {
        assert(a =~= b);
    }
}

proof fn lemma_text_order_transitive(a: Seq<char>, b: Seq<char>, c: Seq<char>)
    requires
        text_precedes(a, b),
        text_precedes(b, c),
    ensures
        text_precedes(a, c),
    decreases a.len(),
{
    if a.len() > 0 && a[0] == b[0] && b[0] == c[0] {
        lemma_text_order_transitive(a.drop_first(), b.drop_first(), c.drop_first());
    }
}

/// Of two chunks exactly one holds: the first goes before the second, the second
/// goes before the first, or they are equal.
pub proof fn law_chunk_order_is_total(a: ChunkView, b: ChunkView)
    ensures
        a.precedes(b) || b.precedes(a) || a == b,
        !(a.precedes(b) && b.precedes(a)),
        a == b ==> !a.precedes(b),
{
    lemma_text_order_total(a.text, b.text);
}

/// What goes before a chunk goes before all that follows it.
pub proof fn law_chunk_order_is_transitive(a: ChunkView, b: ChunkView, c: ChunkView)
    requires
        a.precedes(b),
        b.precedes(c),
    ensures
        a.precedes(c),
{
    if a.input_start_index == b.input_start_index == c.input_start_index && a.input_end_index
        == b.input_end_index == c.input_end_index && a.start == b.start == c.start && a.end
        == b.end == c.end {
        lemma_text_order_transitive(a.text, b.text, c.text);
    }
}

fn text_goes_before(a: &str, b: &str) -> (before: bool)
    ensures
        before == text_precedes(a@, b@),
{
    let mut left = a.chars();
    let mut right = b.chars();
    loop
        invariant
            text_precedes(a@, b@) == text_precedes(
                vstd::std_specs::iter::IteratorSpec::remaining(&left),
                vstd::std_specs::iter::IteratorSpec::remaining(&right),
            ),
            vstd::std_specs::iter::IteratorSpec::decrease(&left) is Some,
        decreases vstd::std_specs::iter::IteratorSpec::decrease(&left)->0,
    {
        let from_left = left.next();
        let from_right = right.next();
        match (from_left, from_right) {
            (_, None) => return false,
            (None, Some(_)) => return true,
            (Some(l), Some(r)) => {
                if l != r {
                    return l < r;
                }
            },
        }
    }
}

impl Chunk {
    /// Whether `self` is handed out before `other`.
    pub fn goes_before(&self, other: &Chunk) -> (before: bool)
        ensures
            before == self@.precedes(other@),
            self.input_start_index < other.input_start_index ==> before,
            self.input_start_index > other.input_start_index ==> !before,
            self.input_start_index == other.input_start_index ==> {
                &&& self.input_end_index < other.input_end_index ==> before
                &&& self.input_end_index > other.input_end_index ==> !before
                &&& self.input_end_index == other.input_end_index ==> {
                    &&& self.start < other.start ==> before
                    &&& self.start > other.start ==> !before
                    &&& self.start == other.start ==> {
                        &&& self.end < other.end ==> before
                        &&& self.end > other.end ==> !before
                        &&& self.end == other.end ==> before == text_precedes(
                            self.text@,
                            other.text@,
                        )
                    }
                }
            },
    {
        if self.input_start_index != other.input_start_index {
            self.input_start_index < other.input_start_index
        } else if self.input_end_index != other.input_end_index {
            self.input_end_index < other.input_end_index
        } else if self.start != other.start {
            self.start < other.start
        } else if self.end != other.end {
            self.end < other.end
        } else {
            text_goes_before(self.text.as_str(), other.text.as_str())
        }
    }
}

/// Chunks go by their place in the input: first by where they begin in it, then by
/// where they end in it, then by their start, then by their end.
pub proof fn law_chunks_go_by_place(a: ChunkView, b: ChunkView)
    ensures
        a.input_start_index < b.input_start_index ==> a.precedes(b),
        a.input_start_index == b.input_start_index && a.input_end_index < b.input_end_index
            ==> a.precedes(b),
        a.input_start_index == b.input_start_index && a.input_end_index == b.input_end_index
            && a.start < b.start ==> a.precedes(b),
        a.input_start_index == b.input_start_index && a.input_end_index == b.input_end_index
            && a.start == b.start && a.end < b.end ==> a.precedes(b),
        a.input_start_index == b.input_start_index && a.input_end_index == b.input_end_index
            && a.start == b.start && a.end == b.end ==> (a.precedes(b) <==> text_precedes(
            a.text,
            b.text,
        )),
{
}

/// Texts go by the first character in which they differ; a text that another one
/// goes on from comes before it.
pub proof fn law_texts_go_by_first_difference(a: Seq<char>, b: Seq<char>, at: int)
    requires
        0 <= at <= a.len(),
        at < b.len(),
        a.take(at) == b.take(at),
    ensures
        at == a.len() ==> text_precedes(a, b),
        at < a.len() && a[at] < b[at] ==> text_precedes(a, b),
        at < a.len() && a[at] > b[at] ==> text_precedes(b, a),
    decreases at,
{
    if at > 0 {
        assert(a[0] == a.take(at)[0]);
        assert(b[0] == b.take(at)[0]);
        assert(a.drop_first().take(at - 1) =~= a.take(at).drop_first());
        assert(b.drop_first().take(at - 1) =~= b.take(at).drop_first());
        law_texts_go_by_first_difference(a.drop_first(), b.drop_first(), at - 1);
    }
}

/// A chunk as a mathematical value has all that the chunk has.
pub proof fn law_view_has_every_field(chunk: Chunk)
    ensures
        chunk@.input_start_index == chunk.input_start_index,
        chunk@.input_end_index == chunk.input_end_index,
        chunk@.start == chunk.start,
        chunk@.end == chunk.end,
        chunk@.text == chunk.text@,
{
}

} // verus!
