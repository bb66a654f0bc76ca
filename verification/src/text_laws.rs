//! What holds of all text that is searched, split, trimmed or read as a number.
use vstd::prelude::*;

use crate::text::{
    after_first, decimal, digit_value, first_occurrence, is_first, lemma_is_first,
    lemma_number_nonnegative, lemma_split_concat, lemma_split_none, number_value, occurs, occurs_at,
    split, trim_end, trim_start, u16_value,
};

verus! {

/// What is put between two texts occurs in the whole.
pub proof fn what_is_inside_occurs(before: Seq<char>, pat: Seq<char>, after: Seq<char>)
    ensures
        occurs(before + pat + after, pat),
{
    let s = before + pat + after;
    let n = before.len() as int;
    assert(s.subrange(n, n + pat.len()) =~= pat);
    assert(occurs_at(s, pat, n));
}

/// What occurs in a text has something before it and something behind it, and the three make up
/// the text.
pub proof fn what_occurs_is_inside(s: Seq<char>, pat: Seq<char>) -> (r: (Seq<char>, Seq<char>))
    requires
        occurs(s, pat),
    ensures
        s == r.0 + pat + r.1,
{
    let i = choose|i: int| occurs_at(s, pat, i);
    let r = (s.take(i), s.skip(i + pat.len()));
    assert(s =~= r.0 + s.subrange(i, i + pat.len()) + r.1);
    r
}

/// What stands between a first mark and a second one, or the end, is cut out.
pub proof fn what_follows_the_mark(
    before: Seq<char>,
    pat: Seq<char>,
    middle: Seq<char>,
    rest: Seq<char>,
)
    requires
        pat.len() > 0,
        !occurs(before + pat.drop_last(), pat),
        !occurs(middle + pat.drop_last(), pat),
    ensures
        after_first(before + pat + middle, pat) == Some(middle),
        after_first(before + pat + middle + pat + rest, pat) == Some(middle),
{
    let short = before + pat + middle;
    let long = before + pat + middle + pat + rest;
    lemma_mark_is_first(before, pat, middle);
    assert(short.skip((before.len() + pat.len()) as int) =~= middle);
    if occurs(middle, pat) {
        let r = what_occurs_is_inside(middle, pat);
        what_is_inside_occurs(r.0, pat, r.1 + pat.drop_last());
        assert(r.0 + pat + (r.1 + pat.drop_last()) =~= middle + pat.drop_last());
    }
    assert(long =~= before + pat + (middle + pat + rest));
    lemma_mark_is_first(before, pat, middle + pat + rest);
    assert(long.skip((before.len() + pat.len()) as int) =~= middle + pat + rest);
    lemma_mark_is_first(middle, pat, rest);
    assert((middle + pat + rest).take(middle.len() as int) =~= middle);
}

/// Without a mark nothing is cut out.
pub proof fn nothing_follows_without_a_mark(s: Seq<char>, pat: Seq<char>)
    ensures
        after_first(s, pat) is None <==> !occurs(s, pat),
{
}

proof fn lemma_mark_is_first(before: Seq<char>, pat: Seq<char>, rest: Seq<char>)
    requires
        pat.len() > 0,
        !occurs(before + pat.drop_last(), pat),
    ensures
        first_occurrence(before + pat + rest, pat) == Some(before.len() as int),
{
    let s = before + pat + rest;
    let n = before.len() as int;
    assert(s.subrange(n, n + pat.len()) =~= pat);
    assert forall|j: int| occurs_at(s, pat, j) implies n <= j by {
        if j < n {
            let head = before + pat.drop_last();
            assert(head.subrange(j, j + pat.len()) =~= s.subrange(j, j + pat.len()));
            assert(occurs_at(head, pat, j));
        }
    }
    assert(is_first(s, pat, n));
    lemma_is_first(s, pat, n);
}

/// A separator parts what stands before it from what stands behind it, and text without one is one
/// piece.
pub proof fn splitting(before: Seq<char>, after: Seq<char>, sep: char)
    ensures
        split(before.push(sep) + after, sep) == split(before, sep) + split(after, sep),
        !before.contains(sep) ==> split(before, sep) == seq![before],
{
    lemma_split_concat(before, after, sep);
    if !before.contains(sep) {
        lemma_split_none(before, sep);
    }
}

/// Trimming takes characters of the set off both ends, and all of them.
pub proof fn trimming(before: Seq<char>, s: Seq<char>, after: Seq<char>, set: Seq<char>)
    requires
        forall|i: int| 0 <= i < before.len() ==> set.contains(#[trigger] before[i]),
        forall|i: int| 0 <= i < after.len() ==> set.contains(#[trigger] after[i]),
        s.len() > 0,
        !set.contains(s[0]),
        !set.contains(s.last()),
    ensures
        trim_end(trim_start(before + s + after, set), set) == s,
    decreases before.len() + after.len(),
{
    let whole = before + s + after;
    if before.len() > 0 {
        assert(whole[0] == before[0]);
        assert(whole.drop_first() =~= before.drop_first() + s + after);
        assert forall|i: int| 0 <= i < before.drop_first().len() implies set.contains(
            #[trigger] before.drop_first()[i],
        ) by {
            assert(before.drop_first()[i] == before[i + 1]);
        }
        trimming(before.drop_first(), s, after, set);
    } else {
        assert(whole =~= s + after);
        assert(whole[0] == s[0]);
        lemma_trim_end(s, after, set);
    }
}

/// Text of nothing but the set is trimmed away.
pub proof fn trimming_all(s: Seq<char>, set: Seq<char>)
    requires
        forall|i: int| 0 <= i < s.len() ==> set.contains(#[trigger] s[i]),
    ensures
        trim_end(trim_start(s, set), set) == Seq::<char>::empty(),
    decreases s.len(),
{
    if s.len() > 0 {
        assert(set.contains(s[0]));
        assert forall|i: int| 0 <= i < s.drop_first().len() implies set.contains(
            #[trigger] s.drop_first()[i],
        ) by {
            assert(s.drop_first()[i] == s[i + 1]);
        }
        trimming_all(s.drop_first(), set);
    } else {
        assert(s =~= Seq::empty());
    }
}

proof fn lemma_trim_end(s: Seq<char>, after: Seq<char>, set: Seq<char>)
    requires
        forall|i: int| 0 <= i < after.len() ==> set.contains(#[trigger] after[i]),
        s.len() > 0,
        !set.contains(s.last()),
    ensures
        trim_end(s + after, set) == s,
    decreases after.len(),
{
    let whole = s + after;
    if after.len() > 0 {
        assert(whole.last() == after[after.len() - 1]);
        assert(whole.drop_last() =~= s + after.drop_last());
        assert forall|i: int| 0 <= i < after.drop_last().len() implies set.contains(
            #[trigger] after.drop_last()[i],
        ) by {
            assert(after.drop_last()[i] == after[i]);
        }
        lemma_trim_end(s, after.drop_last(), set);
    } else {
        assert(whole =~= s);
    }
}

/// The decimal digits, and nothing else, are digits of a decimal number.
pub proof fn decimal_digits(c: char)
    ensures
        '0' <= c <= '9' ==> digit_value(c, 10) == Some(c as int - 48),
        !('0' <= c <= '9') ==> digit_value(c, 10) is None,
{
}

/// The sixteen hexadecimal digits, large or small, and nothing else, are digits of a hexadecimal
/// number.
pub proof fn hexadecimal_digits(c: char)
    ensures
        '0' <= c <= '9' ==> digit_value(c, 16) == Some(c as int - 48),
        'a' <= c <= 'f' ==> digit_value(c, 16) == Some(c as int - 87),
        'A' <= c <= 'F' ==> digit_value(c, 16) == Some(c as int - 55),
        !('0' <= c <= '9') && !('a' <= c <= 'f') && !('A' <= c <= 'F') ==> digit_value(c, 16)
            is None,
{
}

/// A digit more makes a number of so many times more and the digit, and a character that is no
/// digit makes none, wherever it stands.
pub proof fn one_digit_more(s: Seq<char>, c: char, radix: int)
    requires
        radix == 10 || radix == 16,
    ensures
        number_value(Seq::empty(), radix) == Some(0int),
        digit_value(c, radix) is None || number_value(s, radix) is None ==> number_value(
            s.push(c),
            radix,
        ) is None,
        digit_value(c, radix) is Some && number_value(s, radix) is Some ==> number_value(
            s.push(c),
            radix,
        ) == Some(number_value(s, radix)->0 * radix + digit_value(c, radix)->0),
{
    assert(s.push(c).drop_last() =~= s);
}

/// A number of 16 bits is read from at least one digit, with a plus before them or not; a larger
/// one, or anything else, is not.
pub proof fn numbers_of_sixteen_bits(s: Seq<char>, radix: int)
    requires
        radix == 10 || radix == 16,
    ensures
        s.len() == 0 ==> u16_value(s, radix) is None,
        s.len() > 0 && s[0] != '+' ==> u16_value(s, radix) == (match number_value(s, radix) {
            Some(v) => if 0 <= v <= 65535 {
                Some(v as u16)
            } else {
                None
            },
            None => None,
        }),
        u16_value(seq!['+'], radix) is None,
        s.len() > 0 && s[0] != '+' ==> u16_value(seq!['+'] + s, radix) == u16_value(s, radix),
        u16_value(seq!['+', '+'] + s, radix) is None,
{
    let signed = seq!['+'] + s;
    assert(signed.drop_first() =~= s);
    assert(seq!['+'].drop_first() =~= Seq::<char>::empty());
    let twice = seq!['+', '+'] + s;
    assert(twice.drop_first() =~= signed);
    lemma_no_number(signed, radix);
    lemma_number_nonnegative(s, radix);
}

proof fn lemma_no_number(s: Seq<char>, radix: int)
    requires
        radix == 10 || radix == 16,
        s.len() > 0,
        s[0] == '+',
    ensures
        number_value(s, radix) is None,
    decreases s.len(),
{
    if s.len() > 1 {
        assert(s.drop_last()[0] == '+');
        lemma_no_number(s.drop_last(), radix);
    }
}

/// A number is written with its last digit behind the others, and without a zero before them.
pub proof fn decimal_writes_the_last_digit(n: nat, d: nat)
    requires
        d < 10,
    ensures
        decimal(d) == seq![(48 + d) as char],
        n > 0 ==> decimal(10 * n + d) == decimal(n).push((48 + d) as char),
{
    assert((10 * n + d) / 10 == n);
    assert((10 * n + d) % 10 == d);
}

} // verus!
