//! Base64 text.
use vstd::prelude::*;

verus! {

/// The digit for a six-bit value in the standard alphabet.
pub open spec fn base64_digit(v: int) -> char {
    if v < 26 {
        ('A' as int + v) as char
    } else if v < 52 {
        ('a' as int + v - 26) as char
    } else if v < 62 {
        ('0' as int + v - 52) as char
    } else if v == 62 {
        '+'
    } else {
        '/'
    }
}

/// The byte at a position, and zero behind the end.
pub open spec fn byte_or_zero(data: Seq<u8>, i: int) -> int {
    if 0 <= i < data.len() {
        data[i] as int
    } else {
        0
    }
}

/// The 24 bits of the three bytes from `i` on.
pub open spec fn group(data: Seq<u8>, i: int) -> int {
    byte_or_zero(data, i) * 65536 + byte_or_zero(data, i + 1) * 256 + byte_or_zero(data, i + 2)
}

/// The six bits at a place in a group of 24, the most significant first.
pub open spec fn sextet(bits: int, place: int) -> int {
    if place == 0 {
        bits / 262144
    } else if place == 1 {
        bits / 4096 % 64
    } else if place == 2 {
        bits / 64 % 64
    } else {
        bits % 64
    }
}

/// Bytes in base64 with the standard alphabet: four digits for each three bytes, the last four
/// padded with `=` where fewer than three bytes are left.
pub open spec fn base64_text(data: Seq<u8>) -> Seq<char> {
    Seq::new(
        4 * ((data.len() + 2) / 3),
        |i: int|
            if i / 4 * 3 + i % 4 > data.len() {
                '='
            } else {
                base64_digit(sextet(group(data, i / 4 * 3), i % 4))
            },
    )
}

/// Appends bytes in base64.
///
/// Calls `base64_simd::Base64::encode_append` with `base64_simd::STANDARD` and a `String`. Of it
/// this trusts that it appends the encoding of the bytes in the standard alphabet with padding,
/// as `base64_text` states it, and changes nothing of what the string held. It is not called
/// where the string would outgrow the largest allocation, on which it panics.
#[verifier::external_body]
pub(crate) fn encode_append(data: &[u8], out: &mut String)
    requires
        vstd::utf8::encode_utf8(old(out)@).len() + base64_text(data@).len() <= isize::MAX,
    ensures
        final(out)@ == old(out)@ + base64_text(data@),
{
    base64_simd::STANDARD.encode_append(data, out);
}

/// The bytes of a group can be read off its six-bit values.
proof fn lemma_group_bytes(data: Seq<u8>, i: int)
    ensures
        ({
            let bits = group(data, i);
            &&& 0 <= sextet(bits, 0) < 64
            &&& 0 <= sextet(bits, 1) < 64
            &&& 0 <= sextet(bits, 2) < 64
            &&& 0 <= sextet(bits, 3) < 64
            &&& byte_or_zero(data, i) == sextet(bits, 0) * 4 + sextet(bits, 1) / 16
            &&& byte_or_zero(data, i + 1) == sextet(bits, 1) % 16 * 16 + sextet(bits, 2) / 4
            &&& byte_or_zero(data, i + 2) == sextet(bits, 2) % 4 * 64 + sextet(bits, 3)
        }),
{
    let bits = group(data, i);
    let x = byte_or_zero(data, i);
    let y = byte_or_zero(data, i + 1);
    let z = byte_or_zero(data, i + 2);
    let v0 = x / 4;
    let v1 = x % 4 * 16 + y / 16;
    let v2 = y % 16 * 4 + z / 64;
    let v3 = z % 64;
    assert(bits == 262144 * v0 + (4096 * v1 + 64 * v2 + v3));
    assert(sextet(bits, 0) == v0);
    assert(bits == 4096 * (64 * v0 + v1) + (64 * v2 + v3));
    assert(bits / 4096 == 64 * v0 + v1);
    assert(sextet(bits, 1) == v1);
    assert(bits == 64 * (4096 * v0 + 64 * v1 + v2) + v3);
    assert(bits / 64 == 4096 * v0 + 64 * v1 + v2);
    assert(sextet(bits, 2) == v2);
    assert(sextet(bits, 3) == v3);
}

/// Different six-bit values have different digits, and none is the padding.
proof fn lemma_digits_differ(v: int, w: int)
    requires
        0 <= v < 64,
        0 <= w < 64,
    ensures
        base64_digit(v) == base64_digit(w) ==> v == w,
        base64_digit(v) != '=',
{
}

/// The digit at a place of a group.
proof fn lemma_digit_at(data: Seq<u8>, g: int, place: int)
    requires
        0 <= g,
        0 <= place < 4,
        3 * g < data.len(),
    ensures
        4 * g + place < base64_text(data).len(),
        base64_text(data)[4 * g + place] == (if 3 * g + place > data.len() {
            '='
        } else {
            base64_digit(sextet(group(data, 3 * g), place))
        }),
{
    let i = 4 * g + place;
    assert(i / 4 == g);
    assert(i % 4 == place);
}

/// Where the texts of two groups agree, so do the six-bit values.
proof fn lemma_same_digit(a: Seq<u8>, b: Seq<u8>, g: int, place: int)
    requires
        base64_text(a) == base64_text(b),
        0 <= g,
        0 <= place < 4,
        3 * g < a.len(),
        3 * g < b.len(),
    ensures
        3 * g + place > a.len() <==> 3 * g + place > b.len(),
        3 * g + place <= a.len() ==> sextet(group(a, 3 * g), place) == sextet(
            group(b, 3 * g),
            place,
        ),
{
    lemma_digit_at(a, g, place);
    lemma_digit_at(b, g, place);
    lemma_group_bytes(a, 3 * g);
    lemma_group_bytes(b, 3 * g);
    let v = sextet(group(a, 3 * g), place);
    let w = sextet(group(b, 3 * g), place);
    assert(place == 0 || place == 1 || place == 2 || place == 3);
    lemma_digits_differ(v, w);
    lemma_digits_differ(w, v);
}

/// Base64 text can be read back: no two sequences of bytes have the same text.
pub proof fn base64_is_reversible(a: Seq<u8>, b: Seq<u8>)
    requires
        base64_text(a) == base64_text(b),
    ensures
        a == b,
{
    let m = (a.len() as int + 2) / 3;
    assert(base64_text(a).len() == 4 * m);
    assert(m == (b.len() as int + 2) / 3);
    if m > 0 {
        lemma_same_digit(a, b, m - 1, 2);
        lemma_same_digit(a, b, m - 1, 3);
    }
    assert(a.len() == b.len());
    assert forall|k: int| 0 <= k < a.len() implies a[k] == b[k] by {
        let g = k / 3;
        lemma_group_bytes(a, 3 * g);
        lemma_group_bytes(b, 3 * g);
        lemma_same_digit(a, b, g, 0);
        lemma_same_digit(a, b, g, 1);
        lemma_same_digit(a, b, g, 2);
        lemma_same_digit(a, b, g, 3);
        assert(k == 3 * g || k == 3 * g + 1 || k == 3 * g + 2);
        assert(a[k] as int == byte_or_zero(a, k));
        assert(b[k] as int == byte_or_zero(b, k));
    }
    assert(a =~= b);
}

/// The digits are the large letters, the small ones, the decimal digits, plus and slash.
pub proof fn base64_digits_in_order(v: int)
    requires
        0 <= v < 64,
    ensures
        0 <= v < 26 ==> base64_digit(v) as int == 65 + v,
        26 <= v < 52 ==> base64_digit(v) as int == 97 + (v - 26),
        52 <= v < 62 ==> base64_digit(v) as int == 48 + (v - 52),
        v == 62 ==> base64_digit(v) == '+',
        v == 63 ==> base64_digit(v) == '/',
{
}

/// Three bytes are four digits, of six bits each, and the text goes on with that of the rest.
pub proof fn base64_of_three_bytes(a: u8, b: u8, c: u8, rest: Seq<u8>)
    ensures
        base64_text(seq![a, b, c] + rest) == seq![
            base64_digit(a as int / 4),
            base64_digit(a as int % 4 * 16 + b as int / 16),
            base64_digit(b as int % 16 * 4 + c as int / 64),
            base64_digit(c as int % 64),
        ] + base64_text(rest),
{
    let data = seq![a, b, c] + rest;
    let head = seq![
        base64_digit(a as int / 4),
        base64_digit(a as int % 4 * 16 + b as int / 16),
        base64_digit(b as int % 16 * 4 + c as int / 64),
        base64_digit(c as int % 64),
    ];
    lemma_sextets(a as int, b as int, c as int);
    assert(group(data, 0) == a * 65536 + b * 256 + c);
    let text = base64_text(data);
    let whole = head + base64_text(rest);
    assert(text.len() == whole.len());
    assert forall|i: int| 0 <= i < text.len() implies text[i] == whole[i] by {
        if i < 4 {
            assert(i / 4 == 0 && i % 4 == i);
            assert(i == 0 || i == 1 || i == 2 || i == 3);
        } else {
            let j = i - 4;
            assert(i / 4 == j / 4 + 1);
            assert(i % 4 == j % 4);
            assert(whole[i] == base64_text(rest)[j]);
            let g = j / 4 * 3;
            assert(i / 4 * 3 == g + 3);
            assert(byte_or_zero(data, g + 3) == byte_or_zero(rest, g));
            assert(byte_or_zero(data, g + 4) == byte_or_zero(rest, g + 1));
            assert(byte_or_zero(data, g + 5) == byte_or_zero(rest, g + 2));
            assert(group(data, g + 3) == group(rest, g));
        }
    }
    assert(text =~= whole);
}

/// Two bytes at the end are three digits and one sign of padding, one byte is two digits and two
/// signs, and no byte is nothing.
pub proof fn base64_of_the_last_bytes(a: u8, b: u8)
    ensures
        base64_text(Seq::empty()) == Seq::<char>::empty(),
        base64_text(seq![a]) == seq![
            base64_digit(a as int / 4),
            base64_digit(a as int % 4 * 16),
            '=',
            '=',
        ],
        base64_text(seq![a, b]) == seq![
            base64_digit(a as int / 4),
            base64_digit(a as int % 4 * 16 + b as int / 16),
            base64_digit(b as int % 16 * 4),
            '=',
        ],
{
    lemma_sextets(a as int, 0, 0);
    lemma_sextets(a as int, b as int, 0);
    assert(base64_text(Seq::empty()) =~= Seq::<char>::empty());
    assert(group(seq![a], 0) == a * 65536);
    assert(group(seq![a, b], 0) == a * 65536 + b * 256);
    assert(base64_text(seq![a]) =~= seq![
        base64_digit(a as int / 4),
        base64_digit(a as int % 4 * 16),
        '=',
        '=',
    ]);
    assert(base64_text(seq![a, b]) =~= seq![
        base64_digit(a as int / 4),
        base64_digit(a as int % 4 * 16 + b as int / 16),
        base64_digit(b as int % 16 * 4),
        '=',
    ]);
}

/// The six-bit values of three bytes.
proof fn lemma_sextets(x: int, y: int, z: int)
    requires
        0 <= x < 256,
        0 <= y < 256,
        0 <= z < 256,
    ensures
        ({
            let bits = x * 65536 + y * 256 + z;
            &&& sextet(bits, 0) == x / 4
            &&& sextet(bits, 1) == x % 4 * 16 + y / 16
            &&& sextet(bits, 2) == y % 16 * 4 + z / 64
            &&& sextet(bits, 3) == z % 64
        }),
{
    let bits = x * 65536 + y * 256 + z;
    let v0 = x / 4;
    let v1 = x % 4 * 16 + y / 16;
    let v2 = y % 16 * 4 + z / 64;
    let v3 = z % 64;
    assert(bits == 262144 * v0 + (4096 * v1 + 64 * v2 + v3));
    assert(bits == 4096 * (64 * v0 + v1) + (64 * v2 + v3));
    assert(bits / 4096 == 64 * v0 + v1);
    assert(bits == 64 * (4096 * v0 + 64 * v1 + v2) + v3);
    assert(bits / 64 == 4096 * v0 + 64 * v1 + v2);
}

} // verus!
