//! Character sequences: searching, splitting, trimming and the numbers written in them.
use vstd::prelude::*;

verus! {

/// `pat` stands in `s` at position `i`.
pub open spec fn occurs_at(s: Seq<char>, pat: Seq<char>, i: int) -> bool {
    0 <= i && i + pat.len() <= s.len() && s.subrange(i, i + pat.len()) == pat
}

/// `pat` stands somewhere in `s`.
pub open spec fn occurs(s: Seq<char>, pat: Seq<char>) -> bool {
    exists|i: int| occurs_at(s, pat, i)
}

/// `r` is the first position at which `pat` stands in `s`.
pub open spec fn is_first(s: Seq<char>, pat: Seq<char>, r: int) -> bool {
    occurs_at(s, pat, r) && forall|j: int| occurs_at(s, pat, j) ==> r <= j
}

/// The first position at which `pat` stands in `s`.
pub open spec fn first_occurrence(s: Seq<char>, pat: Seq<char>) -> Option<int> {
    if occurs(s, pat) {
        Some(choose|r: int| is_first(s, pat, r))
    } else {
        None
    }
}

/// The pieces of `s` between separators. There is always one more than there are separators.
pub open spec fn split(s: Seq<char>, sep: char) -> Seq<Seq<char>>
    decreases s.len(),
{
    if s.len() == 0 {
        seq![Seq::empty()]
    } else {
        let init = split(s.drop_last(), sep);
        if s.last() == sep {
            init.push(Seq::empty())
        } else {
            init.drop_last().push(init.last().push(s.last()))
        }
    }
}

/// `s` without the characters of `set` at its front.
pub open spec fn trim_start(s: Seq<char>, set: Seq<char>) -> Seq<char>
    decreases s.len(),
{
    if s.len() > 0 && set.contains(s[0]) {
        trim_start(s.drop_first(), set)
    } else {
        s
    }
}

/// `s` without the characters of `set` at its end.
pub open spec fn trim_end(s: Seq<char>, set: Seq<char>) -> Seq<char>
    decreases s.len(),
{
    if s.len() > 0 && set.contains(s.last()) {
        trim_end(s.drop_last(), set)
    } else {
        s
    }
}

/// The value of a digit in a numeral system of at most 36 digits.
pub open spec fn digit_value(c: char, radix: int) -> Option<int> {
    let v = if '0' <= c <= '9' {
        c as int - '0' as int
    } else if 'a' <= c <= 'z' {
        c as int - 'a' as int + 10
    } else if 'A' <= c <= 'Z' {
        c as int - 'A' as int + 10
    } else {
        radix
    };
    if v < radix {
        Some(v)
    } else {
        None
    }
}

/// The number that the digits of `s` write, most significant first, if all of them are digits.
pub open spec fn number_value(s: Seq<char>, radix: int) -> Option<int>
    decreases s.len(),
{
    if s.len() == 0 {
        Some(0)
    } else {
        match (number_value(s.drop_last(), radix), digit_value(s.last(), radix)) {
            (Some(v), Some(d)) => Some(v * radix + d),
            _ => None,
        }
    }
}

/// The 16-bit number that `s` writes: digits with at most one `+` before them.
pub open spec fn u16_value(s: Seq<char>, radix: int) -> Option<u16> {
    let digits = if s.len() > 0 && s[0] == '+' {
        s.drop_first()
    } else {
        s
    };
    if digits.len() == 0 {
        None
    } else {
        match number_value(digits, radix) {
            Some(v) => if v <= 0xffff {
                Some(v as u16)
            } else {
                None
            },
            None => None,
        }
    }
}

/// The decimal digits of `n`, without leading zeros.
pub open spec fn decimal(n: nat) -> Seq<char>
    decreases n,
{
    let last = ('0' as int + n % 10) as char;
    if n < 10 {
        seq![last]
    } else {
        decimal(n / 10).push(last)
    }
}

/// The characters of each piece.
pub open spec fn pieces(parts: Seq<Vec<char>>) -> Seq<Seq<char>> {
    parts.map_values(|part: Vec<char>| part@)
}

/// `first_occurrence` is a first occurrence whenever there is an occurrence.
pub proof fn lemma_first_occurrence(s: Seq<char>, pat: Seq<char>)
    ensures
        occurs(s, pat) ==> is_first(s, pat, first_occurrence(s, pat)->0),
{
    if occurs(s, pat) {
        let i = choose|i: int| occurs_at(s, pat, i);
        lemma_least(s, pat, i);
        let r = choose|r: int| is_first(s, pat, r);
        assert(is_first(s, pat, r));
    }
}

proof fn lemma_least(s: Seq<char>, pat: Seq<char>, i: int)
    requires
        occurs_at(s, pat, i),
    ensures
        exists|r: int| is_first(s, pat, r),
    decreases i,
{
    if forall|j: int| occurs_at(s, pat, j) ==> i <= j {
        assert(is_first(s, pat, i));
    } else {
        let j = choose|j: int| occurs_at(s, pat, j) && j < i;
        lemma_least(s, pat, j);
    }
}

/// A first position settles `first_occurrence`.
pub proof fn lemma_is_first(s: Seq<char>, pat: Seq<char>, r: int)
    requires
        is_first(s, pat, r),
    ensures
        first_occurrence(s, pat) == Some(r),
{
    lemma_first_occurrence(s, pat);
    assert(occurs_at(s, pat, r));
    let q = first_occurrence(s, pat)->0;
    assert(occurs_at(s, pat, q));
}

/// An occurrence in `a + b` stands in one of the two, where a character that `pat` does not hold
/// is next to the seam.
pub proof fn lemma_occurs_concat(a: Seq<char>, b: Seq<char>, pat: Seq<char>)
    requires
        pat.len() > 0,
        (a.len() == 0 || !pat.contains(a.last())) || (b.len() == 0 || !pat.contains(b[0])),
    ensures
        occurs(a + b, pat) <==> occurs(a, pat) || occurs(b, pat),
{
    let whole = a + b;
    let n = pat.len();
    if occurs(a, pat) {
        let i = choose|i: int| occurs_at(a, pat, i);
        assert(whole.subrange(i, i + n) =~= a.subrange(i, i + n));
        assert(occurs_at(whole, pat, i));
    }
    if occurs(b, pat) {
        let i = choose|i: int| occurs_at(b, pat, i);
        assert(whole.subrange(a.len() + i, a.len() + i + n) =~= b.subrange(i, i + n));
        assert(occurs_at(whole, pat, a.len() + i));
    }
    if occurs(whole, pat) {
        let i = choose|i: int| occurs_at(whole, pat, i);
        if i + n <= a.len() {
            assert(whole.subrange(i, i + n) =~= a.subrange(i, i + n));
            assert(occurs_at(a, pat, i));
        } else if i >= a.len() {
            let j = i - a.len();
            assert(whole.subrange(i, i + n) =~= b.subrange(j, j + n));
            assert(occurs_at(b, pat, j));
        } else {
            let seam = a.len() - i;
            assert(whole.subrange(i, i + n)[seam - 1] == a.last());
            assert(pat[seam - 1] == a.last());
            assert(whole.subrange(i, i + n)[seam] == b[0]);
            assert(pat[seam] == b[0]);
        }
    }
}

/// The characters of a string.
pub fn chars_of(s: &str) -> (r: Vec<char>)
    ensures
        r@ == s@,
{
    let mut r: Vec<char> = Vec::new();
    for c in it: s.chars()
        invariant
            r@ == it.seq().take(it.index() as int),
            it.seq() == s@,
    {
        r.push(c);
    }
    assert(s@.take(s@.len() as int) == s@);
    r
}

/// Whether the characters are those of `s`.
pub fn eq_str(v: &Vec<char>, s: &str) -> (r: bool)
    ensures
        r == (v@ == s@),
{
    let other = chars_of(s);
    if v.len() != other.len() {
        return false;
    }
    for i in 0..v.len()
        invariant
            v.len() == other.len(),
            other@ == s@,
            forall|j: int| 0 <= j < i ==> v[j] == other[j],
    {
        if v[i] != other[i] {
            return false;
        }
    }
    assert(v@ =~= s@);
    true
}

/// Whether `pat` stands in `s` at position `i`.
fn stands_at(s: &Vec<char>, pat: &Vec<char>, i: usize) -> (r: bool)
    ensures
        r == occurs_at(s@, pat@, i as int),
{
    if i > s.len() || pat.len() > s.len() - i {
        return false;
    }
    for k in 0..pat.len()
        invariant
            i + pat.len() <= s.len(),
            forall|j: int| 0 <= j < k ==> s[i + j] == pat[j],
    {
        if s[i + k] != pat[k] {
            assert(s@.subrange(i as int, i + pat.len())[k as int] != pat@[k as int]);
            return false;
        }
    }
    assert(s@.subrange(i as int, i + pat.len()) =~= pat@);
    true
}

/// Whether the characters begin with `pat`.
pub fn starts_with(s: &Vec<char>, pat: &str) -> (r: bool)
    ensures
        r == pat@.is_prefix_of(s@),
{
    let p = chars_of(pat);
    let r = stands_at(s, &p, 0);
    proof {
        if pat@.is_prefix_of(s@) {
            assert(s@.subrange(0, pat@.len() as int) =~= pat@);
        }
        if r {
            assert(pat@.is_prefix_of(s@)) by {
                assert(s@.subrange(0, pat@.len() as int) == pat@);
            }
        }
    }
    r
}

/// Whether the characters end with `pat`.
pub fn ends_with(s: &Vec<char>, pat: &str) -> (r: bool)
    ensures
        r == pat@.is_suffix_of(s@),
{
    let p = chars_of(pat);
    if p.len() > s.len() {
        return false;
    }
    let r = stands_at(s, &p, s.len() - p.len());
    proof {
        let from = s@.len() - p@.len();
        assert(from + p@.len() == s@.len());
        if pat@.is_suffix_of(s@) {
            assert(s@.subrange(from, from + p@.len()) =~= pat@);
        }
    }
    r
}

/// The first position at or after `from` at which `pat` stands in `s`, as an index into `s`.
fn find_from(s: &Vec<char>, pat: &Vec<char>, from: usize) -> (r: Option<usize>)
    ensures
        r matches Some(i) ==> from <= i && occurs_at(s@, pat@, i as int) && forall|j: int|
            from <= j < i ==> !occurs_at(s@, pat@, j),
        r is None ==> forall|j: int| from <= j ==> !occurs_at(s@, pat@, j),
{
    if pat.len() > s.len() || from > s.len() - pat.len() {
        return None;
    }
    let last: usize = s.len() - pat.len();
    for i in from..last
        invariant
            last == s.len() - pat.len(),
            forall|j: int| from <= j < i ==> !occurs_at(s@, pat@, j),
    {
        if stands_at(s, pat, i) {
            return Some(i);
        }
    }
    if stands_at(s, pat, last) {
        Some(last)
    } else {
        None
    }
}

/// Whether `pat` stands somewhere in `s`.
pub fn contains(s: &str, pat: &str) -> (r: bool)
    ensures
        r == occurs(s@, pat@),
{
    let text = chars_of(s);
    let p = chars_of(pat);
    match find_from(&text, &p, 0) {
        Some(i) => {
            assert(occurs_at(s@, pat@, i as int));
            true
        },
        None => {
            assert forall|j: int| !occurs_at(s@, pat@, j) by {
                if j >= 0 {
                    assert(0usize <= j);
                }
            }
            false
        },
    }
}

/// The characters of `s` from `from` up to `to`.
fn cut(s: &Vec<char>, from: usize, to: usize) -> (r: Vec<char>)
    requires
        from <= to <= s.len(),
    ensures
        r@ == s@.subrange(from as int, to as int),
{
    let mut r: Vec<char> = Vec::new();
    for i in from..to
        invariant
            to <= s.len(),
            r@ == s@.subrange(from as int, i as int),
    {
        r.push(s[i]);
        assert(s@.subrange(from as int, i + 1) =~= s@.subrange(from as int, i as int).push(
            s[i as int],
        ));
    }
    r
}

/// What stands between the first `pat` and the next one, or the end.
pub open spec fn after_first(s: Seq<char>, pat: Seq<char>) -> Option<Seq<char>> {
    match first_occurrence(s, pat) {
        None => None,
        Some(i) => {
            let rest = s.skip(i + pat.len());
            match first_occurrence(rest, pat) {
                None => Some(rest),
                Some(j) => Some(rest.take(j)),
            }
        },
    }
}

/// What stands between the first `pat` and the next one, or the end.
pub fn between(s: &Vec<char>, pat: &str) -> (r: Option<Vec<char>>)
    ensures
        r is Some <==> after_first(s@, pat@) is Some,
        r matches Some(v) ==> v@ == after_first(s@, pat@)->0,
{
    let p = chars_of(pat);
    match find_from(s, &p, 0) {
        None => {
            assert forall|j: int| !occurs_at(s@, pat@, j) by {
                if j >= 0 {
                    assert(0usize <= j);
                }
            }
            None
        },
        Some(i) => {
            proof {
                lemma_is_first(s@, pat@, i as int);
            }
            let len: usize = s.len();
            assert(i + p@.len() <= len);
            let rest = cut(s, i + p.len(), len);
            assert(rest@ =~= s@.skip(i + pat@.len()));
            match find_from(&rest, &p, 0) {
                None => {
                    assert forall|j: int| !occurs_at(rest@, pat@, j) by {
                        if j >= 0 {
                            assert(0usize <= j);
                        }
                    }
                    Some(rest)
                },
                Some(j) => {
                    proof {
                        lemma_is_first(rest@, pat@, j as int);
                    }
                    let r = cut(&rest, 0, j);
                    assert(r@ =~= rest@.take(j as int));
                    Some(r)
                },
            }
        },
    }
}

proof fn lemma_split_nonempty(s: Seq<char>, sep: char)
    ensures
        split(s, sep).len() >= 1,
    decreases s.len(),
{
    if s.len() > 0 {
        lemma_split_nonempty(s.drop_last(), sep);
    }
}

/// Text without a separator is one piece.
pub proof fn lemma_split_none(s: Seq<char>, sep: char)
    requires
        !s.contains(sep),
    ensures
        split(s, sep) == seq![s],
    decreases s.len(),
{
    if s.len() > 0 {
        assert(s.contains(s.last()));
        assert forall|c: char| s.drop_last().contains(c) implies s.contains(c) by {
            let i = choose|i: int| 0 <= i < s.len() - 1 && s.drop_last()[i] == c;
            assert(s[i] == c);
        }
        lemma_split_none(s.drop_last(), sep);
        assert(s.drop_last().push(s.last()) =~= s);
        assert(split(s, sep) =~= seq![s]);
    } else {
        assert(s =~= Seq::empty());
    }
}

/// A separator parts the pieces of what stands before it from those of what stands behind it.
pub proof fn lemma_split_concat(a: Seq<char>, b: Seq<char>, sep: char)
    ensures
        split(a.push(sep) + b, sep) == split(a, sep) + split(b, sep),
    decreases b.len(),
{
    let whole = a.push(sep) + b;
    lemma_split_nonempty(b, sep);
    if b.len() == 0 {
        assert(whole =~= a.push(sep));
        assert(whole.drop_last() =~= a);
        assert(split(whole, sep) =~= split(a, sep) + split(b, sep));
    } else {
        assert(whole.drop_last() =~= a.push(sep) + b.drop_last());
        lemma_split_concat(a, b.drop_last(), sep);
        lemma_split_nonempty(b.drop_last(), sep);
        let init = split(b.drop_last(), sep);
        assert((split(a, sep) + init).drop_last() =~= split(a, sep) + init.drop_last());
        assert((split(a, sep) + init).last() == init.last());
        assert(split(whole, sep) =~= split(a, sep) + split(b, sep));
    }
}

/// All characters of `s` are decimal digits.
pub open spec fn all_digits(s: Seq<char>) -> bool {
    forall|i: int| 0 <= i < s.len() ==> '0' <= #[trigger] s[i] <= '9'
}

/// The decimal text of a number is made of digits and has at least one.
pub proof fn lemma_decimal_digits(n: nat)
    ensures
        decimal(n).len() >= 1,
        all_digits(decimal(n)),
    decreases n,
{
    if n >= 10 {
        lemma_decimal_digits(n / 10);
    }
}

/// The decimal text of a number writes that number.
pub proof fn lemma_decimal_value(n: nat)
    ensures
        number_value(decimal(n), 10) == Some(n as int),
    decreases n,
{
    let d = decimal(n);
    if n >= 10 {
        lemma_decimal_value(n / 10);
        assert(d.drop_last() =~= decimal(n / 10));
    } else {
        assert(d.drop_last() =~= Seq::empty());
        assert(number_value(d.drop_last(), 10) == Some(0int));
    }
}

/// Reading the decimal text of a 16-bit number gives the number back.
pub proof fn lemma_u16_of_decimal(n: u16)
    ensures
        u16_value(decimal(n as nat), 10) == Some(n),
{
    lemma_decimal_digits(n as nat);
    lemma_decimal_value(n as nat);
}

/// The pieces of `s`, from `from` on, between separators.
pub fn split_from(s: &Vec<char>, from: usize, sep: char) -> (r: Vec<Vec<char>>)
    requires
        from <= s.len(),
    ensures
        pieces(r@) == split(s@.skip(from as int), sep),
{
    let mut done: Vec<Vec<char>> = Vec::new();
    let mut part: Vec<char> = Vec::new();
    assert(pieces(done@).push(part@) =~= seq![Seq::<char>::empty()]);
    for i in from..s.len()
        invariant
            pieces(done@).push(part@) == split(s@.subrange(from as int, i as int), sep),
    {
        let ghost before = s@.subrange(from as int, i as int);
        let ghost now = s@.subrange(from as int, i + 1);
        assert(now.drop_last() =~= before);
        let ghost finished = pieces(done@);
        let ghost open = part@;
        assert(finished.push(open).drop_last() =~= finished);
        if s[i] == sep {
            done.push(part);
            part = Vec::new();
            assert(pieces(done@) =~= finished.push(open));
        } else {
            part.push(s[i]);
        }
    }
    let ghost finished = pieces(done@);
    let ghost open = part@;
    done.push(part);
    assert(pieces(done@) =~= finished.push(open));
    assert(s@.subrange(from as int, s.len() as int) =~= s@.skip(from as int));
    done
}

/// Whether `c` is one of the characters.
fn is_one_of(c: char, set: &Vec<char>) -> (r: bool)
    ensures
        r == set@.contains(c),
{
    for i in 0..set.len()
        invariant
            forall|j: int| 0 <= j < i ==> set[j] != c,
    {
        if set[i] == c {
            return true;
        }
    }
    false
}

/// `s` without the characters of `set` at both ends.
pub fn trim(s: &Vec<char>, set: &str) -> (r: Vec<char>)
    ensures
        r@ == trim_end(trim_start(s@, set@), set@),
{
    let set = chars_of(set);
    let mut from: usize = 0;
    assert(s@.skip(0) =~= s@);
    while from < s.len() && is_one_of(s[from], &set)
        invariant
            from <= s.len(),
            trim_start(s@.skip(from as int), set@) == trim_start(s@, set@),
        ensures
            from <= s.len(),
            trim_start(s@, set@) == s@.skip(from as int),
        decreases s.len() - from,
    {
        assert(s@.skip(from as int).drop_first() =~= s@.skip(from + 1));
        from += 1;
    }
    let mut to: usize = s.len();
    assert(s@.subrange(from as int, to as int) =~= s@.skip(from as int));
    while from < to && is_one_of(s[to - 1], &set)
        invariant
            from <= to <= s.len(),
            trim_end(s@.subrange(from as int, to as int), set@) == trim_end(
                s@.skip(from as int),
                set@,
            ),
        ensures
            from <= to <= s.len(),
            trim_end(s@.skip(from as int), set@) == s@.subrange(from as int, to as int),
        decreases to,
    {
        assert(s@.subrange(from as int, to as int).drop_last() =~= s@.subrange(
            from as int,
            to - 1,
        ));
        to -= 1;
    }
    cut(s, from, to)
}

/// The value of a digit in a numeral system of at most 36 digits.
fn digit(c: char, radix: u32) -> (r: Option<u32>)
    requires
        radix <= 36,
    ensures
        r is Some <==> digit_value(c, radix as int) is Some,
        r matches Some(d) ==> d as int == digit_value(c, radix as int)->0 && d < radix,
{
    let v: u32 = if '0' <= c && c <= '9' {
        c as u32 - '0' as u32
    } else if 'a' <= c && c <= 'z' {
        c as u32 - 'a' as u32 + 10
    } else if 'A' <= c && c <= 'Z' {
        c as u32 - 'A' as u32 + 10
    } else {
        radix
    };
    if v < radix {
        Some(v)
    } else {
        None
    }
}

/// More digits never make a number smaller.
proof fn lemma_number_grows(s: Seq<char>, i: int, radix: int)
    requires
        0 <= i <= s.len(),
        radix >= 1,
    ensures
        number_value(s, radix) matches Some(v) ==> (number_value(s.take(i), radix) matches Some(
            u,
        ) && 0 <= u <= v),
    decreases s.len() - i, s.len(),
{
    if i == s.len() {
        assert(s.take(i) =~= s);
        lemma_number_nonnegative(s, radix);
    } else {
        lemma_number_grows(s.drop_last(), i, radix);
        assert(s.drop_last().take(i) =~= s.take(i));
        lemma_number_nonnegative(s.drop_last(), radix);
        if let Some(v) = number_value(s, radix) {
            let u = number_value(s.drop_last(), radix)->0;
            let d = digit_value(s.last(), radix)->0;
            assert(v == u * radix + d);
            assert(u * radix >= u) by (nonlinear_arith)
                requires
                    u >= 0,
                    radix >= 1,
            ;
        }
    }
}

/// A number that is written without a sign is not negative.
pub proof fn lemma_number_nonnegative(s: Seq<char>, radix: int)
    requires
        radix >= 1,
    ensures
        number_value(s, radix) matches Some(v) ==> v >= 0,
    decreases s.len(),
{
    if s.len() > 0 {
        lemma_number_nonnegative(s.drop_last(), radix);
        if let Some(u) = number_value(s.drop_last(), radix) {
            assert(u * radix >= 0) by (nonlinear_arith)
                requires
                    u >= 0,
                    radix >= 1,
            ;
        }
    }
}

/// The 16-bit number that `s` writes: digits with at most one `+` before them.
pub fn parse_u16(s: &Vec<char>, radix: u32) -> (r: Option<u16>)
    requires
        1 <= radix <= 36,
    ensures
        r == u16_value(s@, radix as int),
{
    let from: usize = if s.len() > 0 && s[0] == '+' {
        1
    } else {
        0
    };
    let ghost digits = if s@.len() > 0 && s@[0] == '+' {
        s@.drop_first()
    } else {
        s@
    };
    assert(digits =~= s@.skip(from as int));
    if from == s.len() {
        return None;
    }
    let mut value: u32 = 0;
    for i in from..s.len()
        invariant
            from <= s.len(),
            digits == s@.skip(from as int),
            digits.len() > 0,
            1 <= radix <= 36,
            value <= 0xffff,
            number_value(digits.take(i - from), radix as int) == Some(value as int),
            u16_value(s@, radix as int) == (match number_value(digits, radix as int) {
                Some(v) => if v <= 0xffff {
                    Some(v as u16)
                } else {
                    None
                },
                None => None,
            }),
    {
        let ghost k = i - from;
        assert(digits.take(k + 1).drop_last() =~= digits.take(k));
        assert(digits[k] == s[i as int]);
        proof {
            lemma_number_grows(digits, k + 1, radix as int);
        }
        match digit(s[i], radix) {
            None => {
                return None;
            },
            Some(d) => {
                assert(value * radix <= 0xffff * 36) by (nonlinear_arith)
                    requires
                        value <= 0xffff,
                        radix <= 36,
                ;
                value = value * radix + d;
                if value > 0xffff {
                    return None;
                }
            },
        }
    }
    assert(digits.take(s.len() - from) =~= digits);
    Some(value as u16)
}

} // verus!
