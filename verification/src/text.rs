//! Text as sequences of characters: decimal numbers and joined parts.

use vstd::prelude::*;

verus! {

/// The character of a decimal digit.
pub open spec fn digit(d: int) -> char {
    ('0' as int + d) as char
}

/// A natural number in decimal, without leading zeros.
pub open spec fn decimal(n: nat) -> Seq<char>
    decreases n,
{
    if n < 10 {
        seq![digit(n as int)]
    } else {
        decimal(n / 10).push(digit((n % 10) as int))
    }
}

/// An integer in decimal, with a leading minus sign when it is negative.
pub open spec fn signed_decimal(i: int) -> Seq<char> {
    if i < 0 {
        seq!['-'] + decimal((-i) as nat)
    } else {
        decimal(i as nat)
    }
}

/// The parts one after another, with `separator` between neighbours.
pub open spec fn joined(parts: Seq<Seq<char>>, separator: Seq<char>) -> Seq<char>
    decreases parts.len(),
{
    if parts.len() <= 1 {
        parts.flatten()
    } else {
        joined(parts.drop_last(), separator) + (separator + parts.last())
    }
}

/// What each string of a list holds.
pub open spec fn contents(strings: Seq<String>) -> Seq<Seq<char>> {
    strings.map_values(|s: String| s@)
}

fn digit_str(d: u64) -> (s: &'static str)
    requires
        d < 10,
    ensures
        s@ == seq![digit(d as int)],
{
    proof {
        reveal_strlit("0");
        reveal_strlit("1");
        reveal_strlit("2");
        reveal_strlit("3");
        reveal_strlit("4");
        reveal_strlit("5");
        reveal_strlit("6");
        reveal_strlit("7");
        reveal_strlit("8");
        reveal_strlit("9");
    }
    match d {
        0 => "0",
        1 => "1",
        2 => "2",
        3 => "3",
        4 => "4",
        5 => "5",
        6 => "6",
        7 => "7",
        8 => "8",
        _ => "9",
    }
}

/// Writes `n` in decimal at the end of `out`.
fn append_decimal(out: &mut String, n: u64)
    ensures
        final(out)@ == old(out)@ + decimal(n as nat),
    decreases n,
{
    if n >= 10 {
        append_decimal(out, n / 10);
    }
    out.append(digit_str(n % 10));
}

/// Writes `i` in decimal at the end of `out`.
pub fn append_signed_decimal(out: &mut String, i: i32)
    ensures
        final(out)@ == old(out)@ + signed_decimal(i as int),
{
    if i < 0 {
        proof {
            reveal_strlit("-");
        }
        out.append("-");
        append_decimal(out, (-(i as i64)) as u64);
    } else {
        append_decimal(out, i as u64);
    }
}

/// Joins the parts with `separator` between neighbours.
pub fn join(parts: &Vec<String>, separator: &str) -> (text: String)
    ensures
        text@ == joined(contents(parts@), separator@),
{
    let mut text = String::new();
    let ghost all = contents(parts@);
    for i in 0..parts.len()
        invariant
            all == contents(parts@),
            text@ == joined(all.take(i as int), separator@),
    {
        let ghost seen = all.take(i as int + 1);
        assert(seen.drop_last() == all.take(i as int));
        assert(seen.last() == parts@[i as int]@);
        if i == 0 {
            assert(seen =~= seq![parts@[0]@]);
            proof {
                seen.lemma_flatten_one_element();
                assert(all.take(0).flatten() =~= Seq::<char>::empty());
            }
        } else {
            text.append(separator);
        }
        text.append(parts[i].as_str());
    }
    assert(all.take(parts@.len() as int) == all);
    text
}

/// The number that a sequence of decimal digits reads as.
pub open spec fn reads_as(digits: Seq<char>) -> int
    decreases digits.len(),
{
    if digits.len() == 0 {
        0
    } else {
        10 * reads_as(digits.drop_last()) + (digits.last() as int - '0' as int)
    }
}

/// A number in decimal consists of digits, has no needless zero in front, and reads
/// as the number.
pub proof fn law_decimal_reads_back(n: nat)
    ensures
        reads_as(decimal(n)) == n,
        decimal(n).len() > 0,
        forall|i: int| 0 <= i < decimal(n).len() ==> '0' <= #[trigger] decimal(n)[i] <= '9',
        decimal(n).len() > 1 ==> decimal(n)[0] != '0',
    decreases n,
{
    reveal_with_fuel(reads_as, 2);
    let last = digit((n % 10) as int);
    assert(last as int == '0' as int + n % 10);
    if n < 10 {
        assert(decimal(n).drop_last() =~= Seq::empty());
    } else {
        law_decimal_reads_back(n / 10);
        assert(decimal(n).drop_last() =~= decimal(n / 10));
        if decimal(n / 10).len() == 1 {
            assert(decimal(n / 10).drop_last() =~= Seq::empty());
            assert(decimal(n / 10)[0] == decimal(n / 10).last());
            assert(decimal(n)[0] == decimal(n / 10)[0]);
        }
    }
}

/// A negative number has a minus sign in front of its magnitude, any other has none;
/// different numbers are written differently.
pub proof fn law_signed_decimals_tell_numbers_apart(i: int, j: int)
    ensures
        i < 0 <==> signed_decimal(i)[0] == '-',
        i < 0 ==> reads_as(signed_decimal(i).drop_first()) == -i,
        i >= 0 ==> reads_as(signed_decimal(i)) == i,
        signed_decimal(i) == signed_decimal(j) ==> i == j,
{
    law_decimal_reads_back(if i < 0 { (-i) as nat } else { i as nat });
    law_decimal_reads_back(if j < 0 { (-j) as nat } else { j as nat });
    if i < 0 {
        assert(signed_decimal(i).drop_first() =~= decimal((-i) as nat));
    } else {
        assert('0' <= signed_decimal(i)[0]);
    }
    if j < 0 {
        assert(signed_decimal(j).drop_first() =~= decimal((-j) as nat));
    } else {
        assert('0' <= signed_decimal(j)[0]);
    }
}

/// Nothing is joined to nothing, one part stays as it is, and a separator stands
/// between what is joined first and what is joined after it.
pub proof fn law_joining_is_compositional(
    front: Seq<Seq<char>>,
    back: Seq<Seq<char>>,
    part: Seq<char>,
    separator: Seq<char>,
)
    ensures
        joined(Seq::empty(), separator) == Seq::<char>::empty(),
        joined(seq![part], separator) == part,
        front.len() > 0 && back.len() > 0 ==> joined(front + back, separator) == joined(
            front,
            separator,
        ) + separator + joined(back, separator),
    decreases back.len(),
{
    assert(Seq::<Seq<char>>::empty().flatten() =~= Seq::empty());
    seq![part].lemma_flatten_one_element();
    if front.len() > 0 && back.len() > 0 {
        let whole = front + back;
        assert(whole.last() == back.last());
        assert(whole.drop_last() =~= front + back.drop_last());
        if back.len() == 1 {
            assert(back =~= seq![back[0]]);
            assert(whole.drop_last() =~= front);
            back.lemma_flatten_one_element();
        } else {
            law_joining_is_compositional(front, back.drop_last(), part, separator);
        }
        assert(joined(whole, separator) =~= joined(front, separator) + separator + joined(
            back,
            separator,
        ));
    }
}

/// The list of contents has one entry for each string, which is what it holds.
pub proof fn law_contents_are_those_of_each_string(strings: Seq<String>, i: int)
    requires
        0 <= i < strings.len(),
    ensures
        contents(strings).len() == strings.len(),
        contents(strings)[i] == strings[i]@,
{
}

} // verus!
