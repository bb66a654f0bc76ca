//! What holds of every query.
use vstd::prelude::*;

use crate::base64::base64_text;
use crate::picker::cap_parser::QueryStdioOptions;
use crate::picker::environment::{left_out, Environment};
use crate::picker::query::{
    compression_probe, kitty_probe, provided, query_text, questions, shm_name, shm_probe,
    text_sizing_probe, tmux_end, tmux_escape, tmux_start,
};
use crate::picker::ProtocolType;
use crate::text::{
    decimal, lemma_decimal_digits, lemma_decimal_value, lemma_occurs_concat, occurs, occurs_at,
};
use crate::text_laws::what_is_inside_occurs;

verus! {

/// The text `_Gi=3k`, with which the probe `k` begins and by which its reply is known.
pub open spec fn probe_id(k: char) -> Seq<char> {
    seq!['_', 'G', 'i', '=', '3', k]
}

proof fn lemma_no_underscore(s: Seq<char>, k: char)
    requires
        !s.contains('_'),
    ensures
        !occurs(s, probe_id(k)),
{
    assert forall|i: int| !occurs_at(s, probe_id(k), i) by {
        if occurs_at(s, probe_id(k), i) {
            assert(s.subrange(i, i + 6)[0] == '_');
            assert(s.contains(s[i]));
        }
    }
}

/// Text that begins with a probe's id and holds no further underscore.
proof fn lemma_one_probe(s: Seq<char>, k: char)
    requires
        s.len() >= 6,
        s.take(5) == probe_id(k).take(5),
        forall|i: int| 0 < i < s.len() ==> s[i] != '_',
    ensures
        occurs(s, probe_id(k)) <==> s[5] == k,
{
    if s[5] == k {
        assert forall|i: int| 0 <= i < 6 implies s.subrange(0, 6)[i] == probe_id(k)[i] by {
            if i < 5 {
                assert(s.take(5)[i] == probe_id(k).take(5)[i]);
            }
        }
        assert(s.subrange(0, 6) =~= probe_id(k));
        assert(occurs_at(s, probe_id(k), 0));
    }
    assert forall|i: int| occurs_at(s, probe_id(k), i) implies s[5] == k by {
        assert(s.subrange(i, i + 6)[0] == '_');
        assert(s[i] == '_');
        assert(s.subrange(i, i + 6)[5] == k);
    }
}

/// A character that ends or begins an escape sequence and is not part of a probe's id.
spec fn is_seam(s: Seq<char>) -> bool {
    s.len() > 0 && s[0] == '\x1b' && s.last() == '\x1b' && !s.contains('_')
}

proof fn lemma_escape_is_seam(is_tmux: bool)
    ensures
        is_seam(tmux_escape(is_tmux)),
{
    reveal_strlit("\x1b");
    reveal_strlit("\x1b\x1b");
}

/// What follows an escape holds the id or not, whatever stands before and behind.
proof fn lemma_behind_escape(e: Seq<char>, s: Seq<char>, k: char)
    requires
        is_seam(e),
        '0' <= k <= '9',
    ensures
        occurs(e + s, probe_id(k)) <==> occurs(s, probe_id(k)),
        (e + s)[0] == '\x1b',
{
    lemma_no_underscore(e, k);
    assert(!probe_id(k).contains('\x1b'));
    lemma_occurs_concat(e, s, probe_id(k));
}

proof fn lemma_before_escape(a: Seq<char>, b: Seq<char>, k: char)
    requires
        '0' <= k <= '9',
        b.len() == 0 || b[0] == '\x1b',
    ensures
        occurs(a + b, probe_id(k)) <==> occurs(a, probe_id(k)) || occurs(b, probe_id(k)),
{
    assert(!probe_id(k).contains('\x1b'));
    lemma_occurs_concat(a, b, probe_id(k));
}

/// A probe, closed by a string terminator, holds its own id and no other.
proof fn lemma_probe(e: Seq<char>, s: Seq<char>, k: char)
    requires
        is_seam(e),
        '0' <= k <= '9',
        s.len() >= 6,
        s.take(5) == probe_id(k).take(5),
        forall|i: int| 0 < i < s.len() ==> s[i] != '_',
    ensures
        occurs(e + s + e + "\\"@, probe_id(k)) <==> s[5] == k,
        (e + s + e + "\\"@)[0] == '\x1b',
{
    reveal_strlit("\\");
    lemma_one_probe(s, k);
    lemma_behind_escape(e, s, k);
    lemma_no_underscore("\\"@, k);
    lemma_behind_escape(e, "\\"@, k);
    lemma_before_escape(e + s, e + "\\"@, k);
    assert(e + s + e + "\\"@ =~= (e + s) + (e + "\\"@));
}

proof fn lemma_plain(e: Seq<char>, s: Seq<char>, k: char)
    requires
        is_seam(e),
        '0' <= k <= '9',
        !s.contains('_'),
    ensures
        !occurs(e + s, probe_id(k)),
        (e + s)[0] == '\x1b',
{
    lemma_no_underscore(s, k);
    lemma_behind_escape(e, s, k);
}

proof fn lemma_kitty_probe(e: Seq<char>, k: char)
    requires
        is_seam(e),
        '0' <= k <= '9',
    ensures
        occurs(kitty_probe(e), probe_id(k)) <==> k == '1',
        kitty_probe(e)[0] == '\x1b',
{
    reveal_strlit("_Gi=31,s=1,v=1,a=q,t=d,f=24;AAAA");
    let s = "_Gi=31,s=1,v=1,a=q,t=d,f=24;AAAA"@;
    assert(s.take(5) =~= probe_id(k).take(5));
    assert forall|i: int| 0 < i < s.len() implies s[i] != '_' by {}
    lemma_probe(e, s, k);
}

proof fn lemma_compression_probe(e: Seq<char>, k: char)
    requires
        is_seam(e),
        '0' <= k <= '9',
    ensures
        occurs(compression_probe(e), probe_id(k)) <==> k == '2',
        compression_probe(e)[0] == '\x1b',
{
    reveal_strlit("_Gi=32,s=1,v=1,a=q,t=d,f=24,o=z;eJxjYGAAAAADAAE=");
    let s = "_Gi=32,s=1,v=1,a=q,t=d,f=24,o=z;eJxjYGAAAAADAAE="@;
    assert(s.take(5) =~= probe_id(k).take(5));
    assert forall|i: int| 0 < i < s.len() implies s[i] != '_' by {}
    lemma_probe(e, s, k);
}

/// Base64 text holds letters, digits, `+`, `/` and `=` only.
pub proof fn base64_alphabet(data: Seq<u8>, i: int)
    requires
        0 <= i < base64_text(data).len(),
    ensures
        ({
            let c = base64_text(data)[i];
            'A' <= c <= 'Z' || 'a' <= c <= 'z' || '0' <= c <= '9' || c == '+' || c == '/' || c
                == '='
        }),
{
    let g = i / 4 * 3;
    let bits = crate::base64::group(data, g);
    assert(0 <= bits < 16777216);
    let v = crate::base64::sextet(bits, i % 4);
    assert(0 <= v < 64);
}

proof fn lemma_shm_probe(e: Seq<char>, pid: u32, k: char)
    requires
        is_seam(e),
        '0' <= k <= '9',
    ensures
        occurs(shm_probe(e, pid), probe_id(k)) <==> k == '3',
        shm_probe(e, pid)[0] == '\x1b',
{
    reveal_strlit("_Gi=33,s=1,v=1,a=q,t=s,f=32;");
    let head = "_Gi=33,s=1,v=1,a=q,t=s,f=32;"@;
    let data = vstd::utf8::encode_utf8(shm_name(pid));
    let payload = base64_text(data);
    let s = head + payload;
    assert(s.take(5) =~= probe_id(k).take(5));
    assert forall|i: int| 0 < i < s.len() implies s[i] != '_' by {
        if i >= head.len() {
            base64_alphabet(data, i - head.len());
        }
    }
    lemma_probe(e, s, k);
    assert(shm_probe(e, pid) =~= e + s + e + "\\"@);
}

proof fn lemma_text_sizing_probe(e: Seq<char>, k: char)
    requires
        is_seam(e),
        '0' <= k <= '9',
    ensures
        !occurs(text_sizing_probe(e), probe_id(k)),
        text_sizing_probe(e)[0] == '\x1b',
{
    reveal_strlit("[6n");
    reveal_strlit("]66;w=2; \x07");
    reveal_strlit("]66;s=2; \x07");
    let cpr = "[6n"@;
    let wide = "]66;w=2; \x07"@;
    let scaled = "]66;s=2; \x07"@;
    let s = cpr + e + wide + e + cpr + e + scaled + e + cpr;
    assert forall|i: int| 0 <= i < e.len() implies e[i] != '_' by {
        assert(e.contains(e[i]));
    }
    assert(!s.contains('_'));
    lemma_plain(e, s, k);
    assert(text_sizing_probe(e) =~= e + s);
}

proof fn lemma_ids_asked(e: Seq<char>, options: QueryStdioOptions, pid: u32, k: char)
    requires
        is_seam(e),
        '0' <= k <= '9',
    ensures
        occurs(questions(e, options, pid), probe_id(k)) <==> asked(options, k),
        questions(e, options, pid)[0] == '\x1b',
{
    reveal_strlit("[c");
    reveal_strlit("[16t");
    reveal_strlit("]11;?\x07");
    reveal_strlit("[5n");
    let kitty = !options.blacklist_protocols@.contains(ProtocolType::Kitty);
    let sixel = !options.blacklist_protocols@.contains(ProtocolType::Sixel);
    let none = Seq::<char>::empty();
    lemma_no_underscore(none, k);
    lemma_kitty_probe(e, k);
    lemma_compression_probe(e, k);
    lemma_shm_probe(e, pid, k);
    lemma_plain(e, "[c"@, k);
    lemma_plain(e, "[16t"@, k);
    lemma_plain(e, "]11;?\x07"@, k);
    lemma_text_sizing_probe(e, k);
    lemma_plain(e, "[5n"@, k);
    let p1 = provided(kitty, kitty_probe(e));
    let p2 = provided(kitty && options.kitty_compression, compression_probe(e));
    let p3 = provided(kitty && options.kitty_shared_memory_probe, shm_probe(e, pid));
    let p4 = provided(sixel, e + "[c"@);
    let p5 = e + "[16t"@;
    let p6 = provided(options.terminal_background_color_osc, e + "]11;?\x07"@);
    let p7 = provided(options.text_sizing_protocol, text_sizing_probe(e));
    let p8 = e + "[5n"@;
    lemma_before_escape(p1, p2, k);
    lemma_before_escape(p1 + p2, p3, k);
    lemma_before_escape(p1 + p2 + p3, p4, k);
    lemma_before_escape(p1 + p2 + p3 + p4, p5, k);
    lemma_before_escape(p1 + p2 + p3 + p4 + p5, p6, k);
    lemma_before_escape(p1 + p2 + p3 + p4 + p5 + p6, p7, k);
    lemma_before_escape(p1 + p2 + p3 + p4 + p5 + p6 + p7, p8, k);
}

/// Which kitty probes the options ask for: none where kitty is left out, the first always
/// otherwise, and the others where they are opted for.
pub open spec fn asked(options: QueryStdioOptions, k: char) -> bool {
    !options.blacklist_protocols@.contains(ProtocolType::Kitty) && (k == '1' || k == '2'
        && options.kitty_compression || k == '3' && options.kitty_shared_memory_probe)
}

/// Probes are opt-in: the id of a probe is in the query where the options ask for the probe and
/// nowhere else.
pub proof fn probes_are_opt_in(is_tmux: bool, options: QueryStdioOptions, pid: u32, k: char)
    requires
        '0' <= k <= '9',
    ensures
        occurs(query_text(is_tmux, options, pid), seq!['_', 'G', 'i', '=', '3', k]) <==> {
            &&& !options.blacklist_protocols@.contains(ProtocolType::Kitty)
            &&& k == '1' || k == '2' && options.kitty_compression || k == '3'
                && options.kitty_shared_memory_probe
        },
{
    reveal_strlit("\x1bPtmux;");
    reveal_strlit("\x1b\\");
    let e = tmux_escape(is_tmux);
    let start = tmux_start(is_tmux);
    let end = tmux_end(is_tmux);
    lemma_escape_is_seam(is_tmux);
    lemma_ids_asked(e, options, pid, k);
    assert(!start.contains('_'));
    assert(!end.contains('_'));
    lemma_no_underscore(start, k);
    lemma_no_underscore(end, k);
    lemma_before_escape(start, questions(e, options, pid), k);
    lemma_before_escape(start + questions(e, options, pid), end, k);
}

proof fn lemma_join(a: Seq<char>, b: Seq<char>, pat: Seq<char>)
    requires
        pat.len() > 0,
        !pat.contains('\x1b'),
        b.len() == 0 || b[0] == '\x1b',
    ensures
        occurs(a + b, pat) <==> occurs(a, pat) || occurs(b, pat),
{
    lemma_occurs_concat(a, b, pat);
}

/// Text that lacks a character of a pattern lacks the pattern.
proof fn lemma_lacks(s: Seq<char>, pat: Seq<char>, i: int)
    requires
        0 <= i < pat.len(),
        !s.contains(pat[i]),
    ensures
        !occurs(s, pat),
{
    assert forall|j: int| !occurs_at(s, pat, j) by {
        if occurs_at(s, pat, j) {
            assert(s.subrange(j, j + pat.len())[i] == pat[i]);
            assert(s[j + i] == pat[i]);
            assert(s.contains(s[j + i]));
        }
    }
}

proof fn lemma_text_sizing_has_no_c(e: Seq<char>)
    requires
        e == "\x1b"@ || e == "\x1b\x1b"@,
    ensures
        !text_sizing_probe(e).contains('c'),
{
    reveal_strlit("\x1b");
    reveal_strlit("\x1b\x1b");
    reveal_strlit("[6n");
    reveal_strlit("]66;w=2; \x07");
    reveal_strlit("]66;s=2; \x07");
    let a = e + "[6n"@;
    let b = e + "]66;w=2; \x07"@;
    let c = e + "]66;s=2; \x07"@;
    assert(!a.contains('c'));
    assert(!b.contains('c'));
    assert(!c.contains('c'));
    let s = a + b + a + c + a;
    assert(text_sizing_probe(e) =~= s);
    assert forall|i: int| 0 <= i < s.len() implies s[i] != 'c' by {
        let n = a.len() as int;
        let m = b.len() as int;
        if i < n {
            assert(s[i] == a[i]);
        } else if i < n + m {
            assert(s[i] == b[i - n]);
        } else if i < n + m + n {
            assert(s[i] == a[i - n - m]);
        } else if i < n + m + n + m {
            assert(s[i] == c[i - n - m - n]);
        } else {
            assert(s[i] == a[i - n - m - n - m]);
        }
    }
}

proof fn lemma_kitty_probes_lack_attributes(e: Seq<char>, pid: u32)
    requires
        e == "\x1b"@ || e == "\x1b\x1b"@,
    ensures
        !kitty_probe(e).contains('c'),
        !compression_probe(e).contains('c'),
        !shm_probe(e, pid).contains('['),
{
    reveal_strlit("\x1b");
    reveal_strlit("\x1b\x1b");
    reveal_strlit("\\");
    reveal_strlit("_Gi=31,s=1,v=1,a=q,t=d,f=24;AAAA");
    reveal_strlit("_Gi=32,s=1,v=1,a=q,t=d,f=24,o=z;eJxjYGAAAAADAAE=");
    reveal_strlit("_Gi=33,s=1,v=1,a=q,t=s,f=32;");
    let head = "_Gi=33,s=1,v=1,a=q,t=s,f=32;"@;
    let data = vstd::utf8::encode_utf8(shm_name(pid));
    let payload = base64_text(data);
    let s = shm_probe(e, pid);
    assert forall|i: int| 0 <= i < s.len() implies s[i] != '[' by {
        let from = e.len() + head.len();
        if from <= i < from + payload.len() {
            base64_alphabet(data, i - from);
            assert(s[i] == payload[i - from]);
        }
    }
}

/// Device attributes, and sixel support among them, are asked for exactly where sixel is not left
/// out.
pub proof fn attributes_are_asked_for_sixel(is_tmux: bool, options: QueryStdioOptions, pid: u32)
    ensures
        occurs(query_text(is_tmux, options, pid), "[c"@)
            <==> !options.blacklist_protocols@.contains(ProtocolType::Sixel),
{
    reveal_strlit("\x1b");
    reveal_strlit("\x1b\x1b");
    reveal_strlit("\x1bPtmux;");
    reveal_strlit("\x1b\\");
    reveal_strlit("[c");
    reveal_strlit("[16t");
    reveal_strlit("]11;?\x07");
    reveal_strlit("[5n");
    let pat = "[c"@;
    assert(!pat.contains('\x1b'));
    assert(pat[0] == '[' && pat[1] == 'c');
    let e = tmux_escape(is_tmux);
    let kitty = !options.blacklist_protocols@.contains(ProtocolType::Kitty);
    let sixel = !options.blacklist_protocols@.contains(ProtocolType::Sixel);
    lemma_kitty_probes_lack_attributes(e, pid);
    lemma_text_sizing_has_no_c(e);
    lemma_kitty_probe(e, '1');
    lemma_compression_probe(e, '1');
    lemma_shm_probe(e, pid, '1');
    lemma_text_sizing_probe(e, '1');
    let p0 = tmux_start(is_tmux);
    let p1 = provided(kitty, kitty_probe(e));
    let p2 = provided(kitty && options.kitty_compression, compression_probe(e));
    let p3 = provided(kitty && options.kitty_shared_memory_probe, shm_probe(e, pid));
    let p4 = provided(sixel, e + "[c"@);
    let p5 = e + "[16t"@;
    let p6 = provided(options.terminal_background_color_osc, e + "]11;?\x07"@);
    let p7 = provided(options.text_sizing_protocol, text_sizing_probe(e));
    let p8 = e + "[5n"@;
    let p9 = tmux_end(is_tmux);
    assert(!p0.contains('c'));
    assert(!p5.contains('c'));
    assert(!p6.contains('c'));
    assert(!p8.contains('c'));
    assert(!p9.contains('c'));
    lemma_lacks(p0, pat, 1);
    lemma_lacks(p1, pat, 1);
    lemma_lacks(p2, pat, 1);
    lemma_lacks(p3, pat, 0);
    lemma_lacks(p5, pat, 1);
    lemma_lacks(p6, pat, 1);
    lemma_lacks(p7, pat, 1);
    lemma_lacks(p8, pat, 1);
    lemma_lacks(p9, pat, 1);
    if sixel {
        assert(p4.subrange(e.len() as int, e.len() + 2int) =~= pat);
        assert(occurs_at(p4, pat, e.len() as int));
    } else {
        lemma_lacks(p4, pat, 1);
    }
    lemma_join(p1, p2, pat);
    lemma_join(p1 + p2, p3, pat);
    lemma_join(p1 + p2 + p3, p4, pat);
    lemma_join(p1 + p2 + p3 + p4, p5, pat);
    lemma_join(p1 + p2 + p3 + p4 + p5, p6, pat);
    lemma_join(p1 + p2 + p3 + p4 + p5 + p6, p7, pat);
    lemma_join(p1 + p2 + p3 + p4 + p5 + p6 + p7, p8, pat);
    let asked = p1 + p2 + p3 + p4 + p5 + p6 + p7 + p8;
    assert(asked == questions(e, options, pid));
    lemma_escape_is_seam(is_tmux);
    lemma_ids_asked(e, options, pid, '1');
    lemma_join(p0, asked, pat);
    lemma_join(p0 + asked, p9, pat);
}

/// The text with each escape doubled.
pub open spec fn doubled(s: Seq<char>) -> Seq<char>
    decreases s.len(),
{
    if s.len() == 0 {
        Seq::empty()
    } else if s.last() == '\x1b' {
        doubled(s.drop_last()).push('\x1b').push('\x1b')
    } else {
        doubled(s.drop_last()).push(s.last())
    }
}

/// Doubling writes each escape twice and every other character once, in their order.
pub proof fn doubling(s: Seq<char>, c: char)
    ensures
        doubled(Seq::empty()) == Seq::<char>::empty(),
        doubled(s.push('\x1b')) == doubled(s) + seq!['\x1b', '\x1b'],
        c != '\x1b' ==> doubled(s.push(c)) == doubled(s) + seq![c],
{
    assert(s.push('\x1b').drop_last() =~= s);
    assert(s.push(c).drop_last() =~= s);
    assert(doubled(s.push('\x1b')) =~= doubled(s) + seq!['\x1b', '\x1b']);
    if c != '\x1b' {
        assert(doubled(s.push(c)) =~= doubled(s) + seq![c]);
    }
}

proof fn lemma_doubled_concat(a: Seq<char>, b: Seq<char>)
    ensures
        doubled(a + b) == doubled(a) + doubled(b),
    decreases b.len(),
{
    if b.len() == 0 {
        assert(a + b =~= a);
        assert(doubled(a) + doubled(b) =~= doubled(a));
    } else {
        assert((a + b).drop_last() =~= a + b.drop_last());
        lemma_doubled_concat(a, b.drop_last());
        assert(doubled(a + b) =~= doubled(a) + doubled(b));
    }
}

proof fn lemma_doubled_plain(s: Seq<char>)
    requires
        !s.contains('\x1b'),
    ensures
        doubled(s) == s,
    decreases s.len(),
{
    if s.len() > 0 {
        assert(s.contains(s.last()));
        assert forall|i: int| 0 <= i < s.drop_last().len() implies s.drop_last()[i] != '\x1b' by {
            assert(s.contains(s[i]));
        }
        lemma_doubled_plain(s.drop_last());
        assert(doubled(s) =~= s);
    } else {
        assert(s =~= Seq::empty());
    }
}

/// An escape and plain text behind it.
proof fn lemma_doubled_question(s: Seq<char>)
    requires
        !s.contains('\x1b'),
    ensures
        doubled("\x1b"@ + s) == "\x1b\x1b"@ + s,
{
    reveal_strlit("\x1b");
    reveal_strlit("\x1b\x1b");
    let e = "\x1b"@;
    lemma_doubled_plain(s);
    lemma_doubled_concat(e, s);
    assert(e.drop_last() =~= Seq::empty());
    assert(doubled(e.drop_last()) =~= Seq::empty());
    assert(doubled(e) =~= "\x1b\x1b"@);
}

/// A probe, closed by a string terminator.
proof fn lemma_doubled_probe(s: Seq<char>)
    requires
        !s.contains('\x1b'),
    ensures
        doubled("\x1b"@ + s + "\x1b"@ + "\\"@) == "\x1b\x1b"@ + s + "\x1b\x1b"@ + "\\"@,
{
    reveal_strlit("\\");
    let e = "\x1b"@;
    let ee = "\x1b\x1b"@;
    lemma_doubled_question(s);
    lemma_doubled_question("\\"@);
    lemma_doubled_concat(e + s, e + "\\"@);
    assert(e + s + e + "\\"@ =~= (e + s) + (e + "\\"@));
    assert(ee + s + ee + "\\"@ =~= (ee + s) + (ee + "\\"@));
}

proof fn lemma_doubled_provided(condition: bool, s: Seq<char>, t: Seq<char>)
    requires
        doubled(s) == t,
    ensures
        doubled(provided(condition, s)) == provided(condition, t),
{
    assert(doubled(Seq::<char>::empty()) =~= Seq::empty());
}

proof fn lemma_doubled_kitty_probes(pid: u32)
    ensures
        doubled(kitty_probe("\x1b"@)) == kitty_probe("\x1b\x1b"@),
        doubled(compression_probe("\x1b"@)) == compression_probe("\x1b\x1b"@),
        doubled(shm_probe("\x1b"@, pid)) == shm_probe("\x1b\x1b"@, pid),
{
    reveal_strlit("_Gi=31,s=1,v=1,a=q,t=d,f=24;AAAA");
    reveal_strlit("_Gi=32,s=1,v=1,a=q,t=d,f=24,o=z;eJxjYGAAAAADAAE=");
    reveal_strlit("_Gi=33,s=1,v=1,a=q,t=s,f=32;");
    let e = "\x1b"@;
    let ee = "\x1b\x1b"@;
    lemma_doubled_probe("_Gi=31,s=1,v=1,a=q,t=d,f=24;AAAA"@);
    lemma_doubled_probe("_Gi=32,s=1,v=1,a=q,t=d,f=24,o=z;eJxjYGAAAAADAAE="@);
    let head = "_Gi=33,s=1,v=1,a=q,t=s,f=32;"@;
    let data = vstd::utf8::encode_utf8(shm_name(pid));
    let s = head + base64_text(data);
    assert forall|i: int| 0 <= i < s.len() implies s[i] != '\x1b' by {
        if i >= head.len() {
            base64_alphabet(data, i - head.len());
        }
    }
    lemma_doubled_probe(s);
    assert(shm_probe(e, pid) =~= e + s + e + "\\"@);
    assert(shm_probe(ee, pid) =~= ee + s + ee + "\\"@);
}

proof fn lemma_doubled_text_sizing()
    ensures
        doubled(text_sizing_probe("\x1b"@)) == text_sizing_probe("\x1b\x1b"@),
{
    reveal_strlit("[6n");
    reveal_strlit("]66;w=2; \x07");
    reveal_strlit("]66;s=2; \x07");
    let e = "\x1b"@;
    let ee = "\x1b\x1b"@;
    let cpr = "[6n"@;
    let wide = "]66;w=2; \x07"@;
    let scaled = "]66;s=2; \x07"@;
    lemma_doubled_question(cpr);
    lemma_doubled_question(wide);
    lemma_doubled_question(scaled);
    let a = e + cpr;
    let b = e + wide;
    let c = e + scaled;
    lemma_doubled_concat(a, b);
    lemma_doubled_concat(a + b, a);
    lemma_doubled_concat(a + b + a, c);
    lemma_doubled_concat(a + b + a + c, a);
    assert(text_sizing_probe(e) =~= a + b + a + c + a);
    let x = ee + cpr;
    let y = ee + wide;
    let z = ee + scaled;
    assert(text_sizing_probe(ee) =~= x + y + x + z + x);
}

proof fn lemma_doubled_questions(options: QueryStdioOptions, pid: u32)
    ensures
        doubled(questions("\x1b"@, options, pid)) == questions("\x1b\x1b"@, options, pid),
{
    reveal_strlit("[c");
    reveal_strlit("[16t");
    reveal_strlit("]11;?\x07");
    reveal_strlit("[5n");
    let e = "\x1b"@;
    let ee = "\x1b\x1b"@;
    let kitty = !options.blacklist_protocols@.contains(ProtocolType::Kitty);
    let sixel = !options.blacklist_protocols@.contains(ProtocolType::Sixel);
    let packed = kitty && options.kitty_compression;
    let shared = kitty && options.kitty_shared_memory_probe;
    let color = options.terminal_background_color_osc;
    let sizing = options.text_sizing_protocol;
    lemma_doubled_kitty_probes(pid);
    lemma_doubled_text_sizing();
    lemma_doubled_question("[c"@);
    lemma_doubled_question("[16t"@);
    lemma_doubled_question("]11;?\x07"@);
    lemma_doubled_question("[5n"@);
    lemma_doubled_provided(kitty, kitty_probe(e), kitty_probe(ee));
    lemma_doubled_provided(packed, compression_probe(e), compression_probe(ee));
    lemma_doubled_provided(shared, shm_probe(e, pid), shm_probe(ee, pid));
    lemma_doubled_provided(sixel, e + "[c"@, ee + "[c"@);
    lemma_doubled_provided(color, e + "]11;?\x07"@, ee + "]11;?\x07"@);
    lemma_doubled_provided(sizing, text_sizing_probe(e), text_sizing_probe(ee));
    let p1 = provided(kitty, kitty_probe(e));
    let p2 = provided(packed, compression_probe(e));
    let p3 = provided(shared, shm_probe(e, pid));
    let p4 = provided(sixel, e + "[c"@);
    let p5 = e + "[16t"@;
    let p6 = provided(color, e + "]11;?\x07"@);
    let p7 = provided(sizing, text_sizing_probe(e));
    let p8 = e + "[5n"@;
    lemma_doubled_concat(p1, p2);
    lemma_doubled_concat(p1 + p2, p3);
    lemma_doubled_concat(p1 + p2 + p3, p4);
    lemma_doubled_concat(p1 + p2 + p3 + p4, p5);
    lemma_doubled_concat(p1 + p2 + p3 + p4 + p5, p6);
    lemma_doubled_concat(p1 + p2 + p3 + p4 + p5 + p6, p7);
    lemma_doubled_concat(p1 + p2 + p3 + p4 + p5 + p6 + p7, p8);
}

/// Inside of tmux the same is asked, with each escape doubled, between tmux's start and end.
pub proof fn tmux_wraps_the_same_query(options: QueryStdioOptions, pid: u32)
    ensures
        query_text(true, options, pid) == "\x1bPtmux;"@ + doubled(query_text(false, options, pid))
            + "\x1b\\"@,
{
    lemma_doubled_questions(options, pid);
    assert(query_text(false, options, pid) =~= questions("\x1b"@, options, pid));
}

/// Whatever is asked, a status report is asked for last, so that there is a reply to wait for.
pub proof fn status_is_asked_last(is_tmux: bool, options: QueryStdioOptions, pid: u32)
    ensures
        !is_tmux ==> "\x1b[5n"@.is_suffix_of(query_text(is_tmux, options, pid)),
        is_tmux ==> "\x1b\x1b[5n\x1b\\"@.is_suffix_of(query_text(is_tmux, options, pid)),
{
    reveal_strlit("\x1b");
    reveal_strlit("\x1b\x1b");
    reveal_strlit("[5n");
    reveal_strlit("\x1b\\");
    reveal_strlit("\x1b[5n");
    reveal_strlit("\x1b\x1b[5n\x1b\\");
    let e = tmux_escape(is_tmux);
    let q = query_text(is_tmux, options, pid);
    let tail = e + "[5n"@ + tmux_end(is_tmux);
    let qs = questions(e, options, pid);
    let before = qs.take(qs.len() - (e + "[5n"@).len());
    assert(qs =~= before + (e + "[5n"@));
    assert(q =~= tmux_start(is_tmux) + before + tail);
    assert(q.subrange(q.len() - tail.len(), q.len() as int) =~= tail);
    if is_tmux {
        assert(tail =~= "\x1b\x1b[5n\x1b\\"@);
    } else {
        assert(tail =~= "\x1b[5n"@);
    }
}

/// The name of a probe's object is a portable one: it begins with its only slash, and has no more
/// bytes than any system allows, whatever the number of the process.
pub proof fn shm_name_is_portable(pid: u32)
    ensures
        "/"@.is_prefix_of(shm_name(pid)),
        forall|i: int| 0 < i < shm_name(pid).len() ==> shm_name(pid)[i] != '/',
        "-probe"@.is_suffix_of(shm_name(pid)),
        occurs(shm_name(pid), decimal(pid as nat)),
        vstd::utf8::encode_utf8(shm_name(pid)).len() <= 31,
{
    reveal_strlit("/");
    reveal_strlit("/rtui-");
    reveal_strlit("-probe");
    let name = shm_name(pid);
    let digits = decimal(pid as nat);
    crate::picker::query::lemma_shm_name_ascii(pid);
    lemma_decimal_digits(pid as nat);
    assert(name.subrange(0, 1) =~= "/"@);
    assert forall|i: int| 0 < i < name.len() implies name[i] != '/' by {
        if 6 <= i < 6 + digits.len() {
            assert(name[i] == digits[i - 6]);
        }
    }
    assert(name.subrange(name.len() - 6, name.len() as int) =~= "-probe"@);
    assert(name.subrange(6, 6int + digits.len()) =~= digits);
    assert(occurs_at(name, digits, 6));
}

/// The object of a process is named by the number of the process.
pub proof fn shm_names_hold_the_process(pid: u32)
    ensures
        shm_name(pid) == "/rtui-"@ + decimal(pid as nat) + "-probe"@,
{
}

/// Each process has its own object.
pub proof fn shm_names_differ(a: u32, b: u32)
    requires
        a != b,
    ensures
        shm_name(a) != shm_name(b),
{
    reveal_strlit("/rtui-");
    reveal_strlit("-probe");
    let x = decimal(a as nat);
    let y = decimal(b as nat);
    lemma_decimal_value(a as nat);
    lemma_decimal_value(b as nat);
    if shm_name(a) == shm_name(b) {
        assert(shm_name(a).subrange(6, shm_name(a).len() - 6) =~= x);
        assert(shm_name(b).subrange(6, shm_name(b).len() - 6) =~= y);
    }
}

/// WezTerm and Konsole are asked neither for kitty graphics nor for sixel, whatever the options
/// are.
pub proof fn mistrusted_terminals_are_asked_less(
    env: Environment,
    blacklist: Seq<ProtocolType>,
    is_tmux: bool,
    options: QueryStdioOptions,
    pid: u32,
    k: char,
)
    requires
        (env.wezterm_executable matches Some(path) && path@.len() > 0) || (
        env.konsole_version matches Some(version) && version@.len() > 0),
        options.blacklist_protocols@ == left_out(env, blacklist),
        '0' <= k <= '9',
    ensures
        !occurs(query_text(is_tmux, options, pid), seq!['_', 'G', 'i', '=', '3', k]),
        !occurs(query_text(is_tmux, options, pid), "[c"@),
{
    assert(options.blacklist_protocols@[0] == ProtocolType::Kitty);
    assert(options.blacklist_protocols@[1] == ProtocolType::Sixel);
    probes_are_opt_in(is_tmux, options, pid, k);
    attributes_are_asked_for_sixel(is_tmux, options, pid);
}

/// No name that ends in a number, as those of image transmissions do, is that of a probe's object.
pub proof fn shm_name_is_no_image(pid: u32, name: Seq<char>)
    requires
        name.len() > 0,
        '0' <= name.last() <= '9',
    ensures
        name != shm_name(pid),
{
    reveal_strlit("-probe");
    assert("-probe"@.last() == 'e');
    assert(shm_name(pid).last() == 'e');
}

proof fn lemma_probes_are_plain(e: Seq<char>, pid: u32)
    requires
        e == "\x1b"@ || e == "\x1b\x1b"@,
    ensures
        forall|c: char|
            c == '[' || c == ']' || c == '?' ==> !(#[trigger] kitty_probe(e).contains(c))
                && !compression_probe(e).contains(c) && !shm_probe(e, pid).contains(c),
{
    reveal_strlit("\x1b");
    reveal_strlit("\x1b\x1b");
    reveal_strlit("\\");
    reveal_strlit("_Gi=31,s=1,v=1,a=q,t=d,f=24;AAAA");
    reveal_strlit("_Gi=32,s=1,v=1,a=q,t=d,f=24,o=z;eJxjYGAAAAADAAE=");
    reveal_strlit("_Gi=33,s=1,v=1,a=q,t=s,f=32;");
    let head = "_Gi=33,s=1,v=1,a=q,t=s,f=32;"@;
    let data = vstd::utf8::encode_utf8(shm_name(pid));
    let payload = base64_text(data);
    let s = shm_probe(e, pid);
    assert forall|i: int| 0 <= i < s.len() implies s[i] != '[' && s[i] != ']' && s[i] != '?' by {
        let from = e.len() + head.len();
        if from <= i < from + payload.len() {
            base64_alphabet(data, i - from);
            assert(s[i] == payload[i - from]);
        }
    }
}

/// Text without an escape is asked for where one of the questions holds it.
proof fn lemma_asked_somewhere(is_tmux: bool, options: QueryStdioOptions, pid: u32, pat: Seq<char>)
    requires
        pat.len() > 0,
        !pat.contains('\x1b'),
    ensures
        ({
            let e = tmux_escape(is_tmux);
            let kitty = !options.blacklist_protocols@.contains(ProtocolType::Kitty);
            let sixel = !options.blacklist_protocols@.contains(ProtocolType::Sixel);
            occurs(query_text(is_tmux, options, pid), pat) <==> {
                ||| occurs(tmux_start(is_tmux), pat)
                ||| occurs(provided(kitty, kitty_probe(e)), pat)
                ||| occurs(
                    provided(kitty && options.kitty_compression, compression_probe(e)),
                    pat,
                )
                ||| occurs(
                    provided(kitty && options.kitty_shared_memory_probe, shm_probe(e, pid)),
                    pat,
                )
                ||| occurs(provided(sixel, e + "[c"@), pat)
                ||| occurs(e + "[16t"@, pat)
                ||| occurs(provided(options.terminal_background_color_osc, e + "]11;?\x07"@), pat)
                ||| occurs(provided(options.text_sizing_protocol, text_sizing_probe(e)), pat)
                ||| occurs(e + "[5n"@, pat)
                ||| occurs(tmux_end(is_tmux), pat)
            }
        }),
{
    reveal_strlit("\x1b");
    reveal_strlit("\x1b\x1b");
    reveal_strlit("\x1b\\");
    let e = tmux_escape(is_tmux);
    let kitty = !options.blacklist_protocols@.contains(ProtocolType::Kitty);
    let sixel = !options.blacklist_protocols@.contains(ProtocolType::Sixel);
    lemma_escape_is_seam(is_tmux);
    lemma_ids_asked(e, options, pid, '1');
    lemma_kitty_probe(e, '1');
    lemma_compression_probe(e, '1');
    lemma_shm_probe(e, pid, '1');
    lemma_text_sizing_probe(e, '1');
    let p0 = tmux_start(is_tmux);
    let p1 = provided(kitty, kitty_probe(e));
    let p2 = provided(kitty && options.kitty_compression, compression_probe(e));
    let p3 = provided(kitty && options.kitty_shared_memory_probe, shm_probe(e, pid));
    let p4 = provided(sixel, e + "[c"@);
    let p5 = e + "[16t"@;
    let p6 = provided(options.terminal_background_color_osc, e + "]11;?\x07"@);
    let p7 = provided(options.text_sizing_protocol, text_sizing_probe(e));
    let p8 = e + "[5n"@;
    let p9 = tmux_end(is_tmux);
    lemma_join(p1, p2, pat);
    lemma_join(p1 + p2, p3, pat);
    lemma_join(p1 + p2 + p3, p4, pat);
    lemma_join(p1 + p2 + p3 + p4, p5, pat);
    lemma_join(p1 + p2 + p3 + p4 + p5, p6, pat);
    lemma_join(p1 + p2 + p3 + p4 + p5 + p6, p7, pat);
    lemma_join(p1 + p2 + p3 + p4 + p5 + p6 + p7, p8, pat);
    let asked = p1 + p2 + p3 + p4 + p5 + p6 + p7 + p8;
    assert(asked == questions(e, options, pid));
    lemma_join(p0, asked, pat);
    lemma_join(p0 + asked, p9, pat);
}

proof fn lemma_short_questions(is_tmux: bool)
    ensures
        ({
            let e = tmux_escape(is_tmux);
            &&& e == "\x1b"@ || e == "\x1b\x1b"@
            &&& !(e + "[c"@).contains(']') && !(e + "[c"@).contains('6') && !(e + "[c"@).contains(
                '?',
            )
            &&& !(e + "[16t"@).contains(']') && !(e + "[16t"@).contains('n') && !(e
                + "[16t"@).contains('?')
            &&& !(e + "]11;?\x07"@).contains('6') && !(e + "]11;?\x07"@).contains('[')
            &&& !(e + "[5n"@).contains(']') && !(e + "[5n"@).contains('6') && !(e
                + "[5n"@).contains('?')
        }),
{
    reveal_strlit("\x1b");
    reveal_strlit("\x1b\x1b");
    reveal_strlit("[c");
    reveal_strlit("[16t");
    reveal_strlit("]11;?\x07");
    reveal_strlit("[5n");
}

proof fn lemma_wrapping_is_plain(is_tmux: bool)
    ensures
        forall|c: char|
            c == '[' || c == ']' || c == '?' ==> !(#[trigger] tmux_start(is_tmux).contains(c))
                && !tmux_end(is_tmux).contains(c),
{
    reveal_strlit("\x1bPtmux;");
    reveal_strlit("\x1b\\");
}

proof fn lemma_text_sizing_is_plain(e: Seq<char>)
    requires
        e == "\x1b"@ || e == "\x1b\x1b"@,
    ensures
        !text_sizing_probe(e).contains('?'),
{
    reveal_strlit("\x1b");
    reveal_strlit("\x1b\x1b");
    reveal_strlit("[6n");
    reveal_strlit("]66;w=2; \x07");
    reveal_strlit("]66;s=2; \x07");
    let a = e + "[6n"@;
    let b = e + "]66;w=2; \x07"@;
    let c = e + "]66;s=2; \x07"@;
    let s = a + b + a + c + a;
    assert(text_sizing_probe(e) =~= s);
    assert forall|i: int| 0 <= i < s.len() implies s[i] != '?' by {
        let n = a.len() as int;
        let m = b.len() as int;
        if i < n {
            assert(s[i] == a[i]);
        } else if i < n + m {
            assert(s[i] == b[i - n]);
        } else if i < n + m + n {
            assert(s[i] == a[i - n - m]);
        } else if i < n + m + n + m {
            assert(s[i] == c[i - n - m - n]);
        } else {
            assert(s[i] == a[i - n - m - n - m]);
        }
    }
}

/// A pattern that the text sizing probe holds, and that every other question lacks a character of.
proof fn lemma_only_text_sizing(
    is_tmux: bool,
    options: QueryStdioOptions,
    pid: u32,
    pat: Seq<char>,
    in_short: int,
    in_size: int,
    in_color: int,
)
    requires
        pat.len() > 0,
        !pat.contains('\x1b'),
        pat[0] == '[' || pat[0] == ']',
        0 <= in_short < pat.len(),
        0 <= in_size < pat.len(),
        0 <= in_color < pat.len(),
        pat[in_short] == ']' || pat[in_short] == '6',
        pat[in_size] == ']' || pat[in_size] == 'n',
        pat[in_color] == '6' || pat[in_color] == '[',
        occurs(text_sizing_probe(tmux_escape(is_tmux)), pat),
    ensures
        occurs(query_text(is_tmux, options, pid), pat) <==> options.text_sizing_protocol,
{
    let e = tmux_escape(is_tmux);
    lemma_short_questions(is_tmux);
    lemma_wrapping_is_plain(is_tmux);
    lemma_probes_are_plain(e, pid);
    lemma_asked_somewhere(is_tmux, options, pid, pat);
    assert(!kitty_probe(e).contains(pat[0]));
    assert(!tmux_start(is_tmux).contains(pat[0]));
    lemma_lacks_mark(
        tmux_start(is_tmux),
        kitty_probe(e),
        compression_probe(e),
        shm_probe(e, pid),
        tmux_end(is_tmux),
        pat,
    );
    lemma_lacks(e + "[c"@, pat, in_short);
    lemma_lacks(e + "[16t"@, pat, in_size);
    lemma_lacks(e + "]11;?\x07"@, pat, in_color);
    lemma_lacks(e + "[5n"@, pat, in_short);
    lemma_lacks(Seq::empty(), pat, 0);
}

/// The questions of the text sizing protocol are in the query where it is asked for, whatever else
/// is, and nowhere else.
pub proof fn text_sizing_is_asked_for(is_tmux: bool, options: QueryStdioOptions, pid: u32)
    ensures
        occurs(query_text(is_tmux, options, pid), "]66;w=2; "@) <==> options.text_sizing_protocol,
        occurs(query_text(is_tmux, options, pid), "]66;s=2; "@) <==> options.text_sizing_protocol,
        occurs(query_text(is_tmux, options, pid), "[6n"@) <==> options.text_sizing_protocol,
{
    lemma_width_is_asked_for(is_tmux, options, pid);
    lemma_scale_is_asked_for(is_tmux, options, pid);
    lemma_position_is_asked_for(is_tmux, options, pid);
}

proof fn lemma_width_is_asked_for(is_tmux: bool, options: QueryStdioOptions, pid: u32)
    ensures
        occurs(query_text(is_tmux, options, pid), "]66;w=2; "@) <==> options.text_sizing_protocol,
{
    let pat = "]66;w=2; "@;
    assert(pat.len() == 9 && !pat.contains('\x1b') && pat[0] == ']' && pat[1] == '6') by {
        reveal_strlit("]66;w=2; ");
    }
    lemma_text_sizing_holds(tmux_escape(is_tmux));
    lemma_only_text_sizing(is_tmux, options, pid, pat, 0, 0, 1);
}

proof fn lemma_scale_is_asked_for(is_tmux: bool, options: QueryStdioOptions, pid: u32)
    ensures
        occurs(query_text(is_tmux, options, pid), "]66;s=2; "@) <==> options.text_sizing_protocol,
{
    let pat = "]66;s=2; "@;
    assert(pat.len() == 9 && !pat.contains('\x1b') && pat[0] == ']' && pat[1] == '6') by {
        reveal_strlit("]66;s=2; ");
    }
    lemma_text_sizing_holds(tmux_escape(is_tmux));
    lemma_only_text_sizing(is_tmux, options, pid, pat, 0, 0, 1);
}

proof fn lemma_position_is_asked_for(is_tmux: bool, options: QueryStdioOptions, pid: u32)
    ensures
        occurs(query_text(is_tmux, options, pid), "[6n"@) <==> options.text_sizing_protocol,
{
    let pat = "[6n"@;
    assert(pat.len() == 3 && !pat.contains('\x1b') && pat[0] == '[' && pat[1] == '6' && pat[2]
        == 'n') by {
        reveal_strlit("[6n");
    }
    lemma_text_sizing_holds(tmux_escape(is_tmux));
    lemma_only_text_sizing(is_tmux, options, pid, pat, 1, 2, 0);
}

/// Text whose first character none of the parts holds is in none of them.
proof fn lemma_lacks_mark(
    a: Seq<char>,
    b: Seq<char>,
    c: Seq<char>,
    d: Seq<char>,
    e: Seq<char>,
    pat: Seq<char>,
)
    requires
        pat.len() > 0,
        !a.contains(pat[0]),
        !b.contains(pat[0]),
        !c.contains(pat[0]),
        !d.contains(pat[0]),
        !e.contains(pat[0]),
    ensures
        !occurs(a, pat),
        !occurs(b, pat),
        !occurs(c, pat),
        !occurs(d, pat),
        !occurs(e, pat),
{
    lemma_lacks(a, pat, 0);
    lemma_lacks(b, pat, 0);
    lemma_lacks(c, pat, 0);
    lemma_lacks(d, pat, 0);
    lemma_lacks(e, pat, 0);
}

proof fn lemma_text_sizing_holds(e: Seq<char>)
    ensures
        occurs(text_sizing_probe(e), "]66;w=2; "@),
        occurs(text_sizing_probe(e), "]66;s=2; "@),
        occurs(text_sizing_probe(e), "[6n"@),
{
    reveal_strlit("[6n");
    reveal_strlit("]66;w=2; \x07");
    reveal_strlit("]66;s=2; \x07");
    reveal_strlit("]66;w=2; ");
    reveal_strlit("]66;s=2; ");
    let bell = seq!['\x07'];
    let first = e + "[6n"@ + e;
    let rest = bell + e + "[6n"@ + e + "]66;s=2; \x07"@ + e + "[6n"@;
    what_is_inside_occurs(first, "]66;w=2; "@, rest);
    assert(text_sizing_probe(e) =~= first + "]66;w=2; "@ + rest);
    let second = e + "[6n"@ + e + "]66;w=2; \x07"@ + e + "[6n"@ + e;
    what_is_inside_occurs(second, "]66;s=2; "@, bell + e + "[6n"@);
    assert(text_sizing_probe(e) =~= second + "]66;s=2; "@ + (bell + e + "[6n"@));
    what_is_inside_occurs(
        e,
        "[6n"@,
        e + "]66;w=2; \x07"@ + e + "[6n"@ + e + "]66;s=2; \x07"@ + e + "[6n"@,
    );
    assert(text_sizing_probe(e) =~= e + "[6n"@ + (e + "]66;w=2; \x07"@ + e + "[6n"@ + e
        + "]66;s=2; \x07"@ + e + "[6n"@));
}

/// The background color is asked for where it is wanted, whatever else is, and nowhere else. The
/// size of a cell is always asked for, and so is the status.
pub proof fn background_is_asked_for(is_tmux: bool, options: QueryStdioOptions, pid: u32)
    ensures
        occurs(query_text(is_tmux, options, pid), "]11;?"@)
            <==> options.terminal_background_color_osc,
        occurs(query_text(is_tmux, options, pid), "[16t"@),
        occurs(query_text(is_tmux, options, pid), "[5n"@),
{
    lemma_cell_size_is_asked_for(is_tmux, options, pid);
    lemma_status_is_asked_for(is_tmux, options, pid);
    lemma_color_is_asked_for(is_tmux, options, pid);
}

proof fn lemma_color_pattern()
    ensures
        "]11;?\x07"@ == "]11;?"@ + seq!['\x07'],
        "]11;?"@.len() == 5,
        !"]11;?"@.contains('\x1b'),
        "]11;?"@[4] == '?',
{
    reveal_strlit("]11;?");
    reveal_strlit("]11;?\x07");
    assert("]11;?\x07"@ =~= "]11;?"@ + seq!['\x07']);
}

proof fn lemma_holds_color(e: Seq<char>, pat: Seq<char>, whole: Seq<char>)
    requires
        whole == pat + seq!['\x07'],
    ensures
        occurs(e + whole, pat),
{
    what_is_inside_occurs(e, pat, seq!['\x07']);
    assert(e + pat + seq!['\x07'] =~= e + whole);
}

proof fn lemma_color_is_asked_for(is_tmux: bool, options: QueryStdioOptions, pid: u32)
    ensures
        occurs(query_text(is_tmux, options, pid), "]11;?"@)
            <==> options.terminal_background_color_osc,
{
    lemma_color_pattern();
    lemma_holds_color(tmux_escape(is_tmux), "]11;?"@, "]11;?\x07"@);
    lemma_only_background(is_tmux, options, pid, "]11;?"@);
}

proof fn lemma_cell_size_is_asked_for(is_tmux: bool, options: QueryStdioOptions, pid: u32)
    ensures
        occurs(query_text(is_tmux, options, pid), "[16t"@),
{
    let e = tmux_escape(is_tmux);
    let none = Seq::<char>::empty();
    assert("[16t"@.len() == 4 && !"[16t"@.contains('\x1b')) by {
        reveal_strlit("[16t");
    }
    what_is_inside_occurs(e, "[16t"@, none);
    assert(e + "[16t"@ + none =~= e + "[16t"@);
    lemma_asked_somewhere(is_tmux, options, pid, "[16t"@);
}

proof fn lemma_status_is_asked_for(is_tmux: bool, options: QueryStdioOptions, pid: u32)
    ensures
        occurs(query_text(is_tmux, options, pid), "[5n"@),
{
    let e = tmux_escape(is_tmux);
    let none = Seq::<char>::empty();
    assert("[5n"@.len() == 3 && !"[5n"@.contains('\x1b')) by {
        reveal_strlit("[5n");
    }
    what_is_inside_occurs(e, "[5n"@, none);
    assert(e + "[5n"@ + none =~= e + "[5n"@);
    lemma_asked_somewhere(is_tmux, options, pid, "[5n"@);
}

proof fn lemma_only_background(is_tmux: bool, options: QueryStdioOptions, pid: u32, pat: Seq<char>)
    requires
        pat.len() == 5,
        pat[4] == '?',
        !pat.contains('\x1b'),
        occurs(tmux_escape(is_tmux) + "]11;?\x07"@, pat),
    ensures
        occurs(query_text(is_tmux, options, pid), pat) <==> options.terminal_background_color_osc,
{
    let e = tmux_escape(is_tmux);
    lemma_short_questions(is_tmux);
    lemma_wrapping_is_plain(is_tmux);
    lemma_probes_are_plain(e, pid);
    lemma_text_sizing_is_plain(e);
    lemma_asked_somewhere(is_tmux, options, pid, pat);
    assert(!kitty_probe(e).contains('?'));
    assert(!tmux_start(is_tmux).contains('?'));
    lemma_lacks(tmux_start(is_tmux), pat, 4);
    lemma_lacks(kitty_probe(e), pat, 4);
    lemma_lacks(compression_probe(e), pat, 4);
    lemma_lacks(shm_probe(e, pid), pat, 4);
    lemma_lacks(e + "[c"@, pat, 4);
    lemma_lacks(e + "[16t"@, pat, 4);
    lemma_lacks(text_sizing_probe(e), pat, 4);
    lemma_lacks(e + "[5n"@, pat, 4);
    lemma_lacks(tmux_end(is_tmux), pat, 4);
    lemma_lacks(Seq::empty(), pat, 4);
}

/// Where the text sizing protocol is asked for besides all else, its questions stand directly before
/// the last one, in the order in which the cursor is to move.
pub proof fn what_text_sizing_adds(
    without: QueryStdioOptions,
    with: QueryStdioOptions,
    pid: u32,
) -> (before: Seq<char>)
    requires
        !without.text_sizing_protocol,
        with.text_sizing_protocol,
        with.blacklist_protocols@ == without.blacklist_protocols@,
        with.kitty_compression == without.kitty_compression,
        with.kitty_shared_memory_probe == without.kitty_shared_memory_probe,
        with.terminal_background_color_osc == without.terminal_background_color_osc,
    ensures
        query_text(false, without, pid) == before + "\x1b[5n"@,
        query_text(false, with, pid) == before
            + "\x1b[6n\x1b]66;w=2; \x07\x1b[6n\x1b]66;s=2; \x07\x1b[6n"@ + "\x1b[5n"@,
{
    let e = "\x1b"@;
    lemma_text_sizing_spelled();
    lemma_spelled();
    let q = query_text(false, without, pid);
    let before = q.take(q.len() - "\x1b[5n"@.len());
    let kitty = !with.blacklist_protocols@.contains(ProtocolType::Kitty);
    let sixel = !with.blacklist_protocols@.contains(ProtocolType::Sixel);
    let head = provided(kitty, kitty_probe(e)) + provided(
        kitty && with.kitty_compression,
        compression_probe(e),
    ) + provided(kitty && with.kitty_shared_memory_probe, shm_probe(e, pid)) + provided(
        sixel,
        e + "[c"@,
    ) + (e + "[16t"@) + provided(with.terminal_background_color_osc, e + "]11;?\x07"@);
    assert(q =~= head + "\x1b[5n"@);
    assert(before =~= head);
    assert(query_text(false, with, pid) =~= head + text_sizing_probe(e) + "\x1b[5n"@);
    before
}

proof fn lemma_text_sizing_spelled()
    ensures
        text_sizing_probe("\x1b"@)
            == "\x1b[6n\x1b]66;w=2; \x07\x1b[6n\x1b]66;s=2; \x07\x1b[6n"@,
{
    reveal_strlit("\x1b");
    reveal_strlit("[6n");
    reveal_strlit("]66;w=2; \x07");
    reveal_strlit("]66;s=2; \x07");
    reveal_strlit("\x1b[6n\x1b]66;w=2; \x07\x1b[6n\x1b]66;s=2; \x07\x1b[6n");
    assert(text_sizing_probe("\x1b"@)
        =~= "\x1b[6n\x1b]66;w=2; \x07\x1b[6n\x1b]66;s=2; \x07\x1b[6n"@);
}

proof fn lemma_spelled()
    ensures
        "\x1b"@ + "[c"@ == "\x1b[c"@,
        "\x1b"@ + "[16t"@ == "\x1b[16t"@,
        "\x1b"@ + "]11;?\x07"@ == "\x1b]11;?\x07"@,
        "\x1b"@ + "[5n"@ == "\x1b[5n"@,
{
    reveal_strlit("\x1b");
    assert("\x1b"@ + "[c"@ =~= "\x1b[c"@) by {
        reveal_strlit("[c");
        reveal_strlit("\x1b[c");
    }
    assert("\x1b"@ + "[16t"@ =~= "\x1b[16t"@) by {
        reveal_strlit("[16t");
        reveal_strlit("\x1b[16t");
    }
    assert("\x1b"@ + "]11;?\x07"@ =~= "\x1b]11;?\x07"@) by {
        reveal_strlit("]11;?\x07");
        reveal_strlit("\x1b]11;?\x07");
    }
    assert("\x1b"@ + "[5n"@ =~= "\x1b[5n"@) by {
        reveal_strlit("[5n");
        reveal_strlit("\x1b[5n");
    }
}

proof fn lemma_probes_spelled(pid: u32)
    ensures
        kitty_probe("\x1b"@) == "\x1b_Gi=31,s=1,v=1,a=q,t=d,f=24;AAAA\x1b\\"@,
        compression_probe("\x1b"@)
            == "\x1b_Gi=32,s=1,v=1,a=q,t=d,f=24,o=z;eJxjYGAAAAADAAE=\x1b\\"@,
        shm_probe("\x1b"@, pid) == "\x1b_Gi=33,s=1,v=1,a=q,t=s,f=32;"@ + base64_text(
            vstd::utf8::encode_utf8("/rtui-"@ + decimal(pid as nat) + "-probe"@),
        ) + "\x1b\\"@,
{
    reveal_strlit("\x1b");
    reveal_strlit("\\");
    assert(kitty_probe("\x1b"@) =~= "\x1b_Gi=31,s=1,v=1,a=q,t=d,f=24;AAAA\x1b\\"@) by {
        reveal_strlit("_Gi=31,s=1,v=1,a=q,t=d,f=24;AAAA");
        reveal_strlit("\x1b_Gi=31,s=1,v=1,a=q,t=d,f=24;AAAA\x1b\\");
    }
    assert(compression_probe("\x1b"@)
        =~= "\x1b_Gi=32,s=1,v=1,a=q,t=d,f=24,o=z;eJxjYGAAAAADAAE=\x1b\\"@) by {
        reveal_strlit("_Gi=32,s=1,v=1,a=q,t=d,f=24,o=z;eJxjYGAAAAADAAE=");
        reveal_strlit("\x1b_Gi=32,s=1,v=1,a=q,t=d,f=24,o=z;eJxjYGAAAAADAAE=\x1b\\");
    }
    let payload = base64_text(vstd::utf8::encode_utf8(shm_name(pid)));
    assert("\x1b"@ + "_Gi=33,s=1,v=1,a=q,t=s,f=32;"@ =~= "\x1b_Gi=33,s=1,v=1,a=q,t=s,f=32;"@) by {
        reveal_strlit("_Gi=33,s=1,v=1,a=q,t=s,f=32;");
        reveal_strlit("\x1b_Gi=33,s=1,v=1,a=q,t=s,f=32;");
    }
    assert("\x1b"@ + "\\"@ =~= "\x1b\\"@) by {
        reveal_strlit("\x1b\\");
    }
    assert(shm_probe("\x1b"@, pid) =~= ("\x1b"@ + "_Gi=33,s=1,v=1,a=q,t=s,f=32;"@) + payload + (
    "\x1b"@ + "\\"@));
}

/// Where the background color is asked for besides all else, its question stands directly behind
/// that for the size of a cell.
pub proof fn what_the_background_adds(
    without: QueryStdioOptions,
    with: QueryStdioOptions,
    pid: u32,
) -> (r: (Seq<char>, Seq<char>))
    requires
        !without.terminal_background_color_osc,
        with.terminal_background_color_osc,
        with.blacklist_protocols@ == without.blacklist_protocols@,
        with.kitty_compression == without.kitty_compression,
        with.kitty_shared_memory_probe == without.kitty_shared_memory_probe,
        with.text_sizing_protocol == without.text_sizing_protocol,
    ensures
        query_text(false, without, pid) == r.0 + "\x1b[16t"@ + r.1,
        query_text(false, with, pid) == r.0 + "\x1b[16t"@ + "\x1b]11;?\x07"@ + r.1,
{
    let e = "\x1b"@;
    lemma_spelled();
    let kitty = !with.blacklist_protocols@.contains(ProtocolType::Kitty);
    let sixel = !with.blacklist_protocols@.contains(ProtocolType::Sixel);
    let head = provided(kitty, kitty_probe(e)) + provided(
        kitty && with.kitty_compression,
        compression_probe(e),
    ) + provided(kitty && with.kitty_shared_memory_probe, shm_probe(e, pid)) + provided(
        sixel,
        e + "[c"@,
    );
    let tail = provided(with.text_sizing_protocol, text_sizing_probe(e)) + "\x1b[5n"@;
    assert(query_text(false, without, pid) =~= head + "\x1b[16t"@ + tail);
    assert(query_text(false, with, pid) =~= head + "\x1b[16t"@ + "\x1b]11;?\x07"@ + tail);
    (head, tail)
}

/// Where device attributes are asked for besides all else, their question stands directly before
/// that for the size of a cell.
pub proof fn what_sixel_adds(
    without: QueryStdioOptions,
    with: QueryStdioOptions,
    pid: u32,
) -> (r: (Seq<char>, Seq<char>))
    requires
        without.blacklist_protocols@.contains(ProtocolType::Sixel),
        !with.blacklist_protocols@.contains(ProtocolType::Sixel),
        with.blacklist_protocols@.contains(ProtocolType::Kitty)
            == without.blacklist_protocols@.contains(ProtocolType::Kitty),
        with.kitty_compression == without.kitty_compression,
        with.kitty_shared_memory_probe == without.kitty_shared_memory_probe,
        with.terminal_background_color_osc == without.terminal_background_color_osc,
        with.text_sizing_protocol == without.text_sizing_protocol,
    ensures
        query_text(false, without, pid) == r.0 + "\x1b[16t"@ + r.1,
        query_text(false, with, pid) == r.0 + "\x1b[c"@ + "\x1b[16t"@ + r.1,
{
    let e = "\x1b"@;
    lemma_spelled();
    let kitty = !with.blacklist_protocols@.contains(ProtocolType::Kitty);
    let p1 = provided(kitty, kitty_probe(e));
    let p2 = provided(kitty && with.kitty_compression, compression_probe(e));
    let p3 = provided(kitty && with.kitty_shared_memory_probe, shm_probe(e, pid));
    let p6 = provided(with.terminal_background_color_osc, e + "]11;?\x07"@);
    let p7 = provided(with.text_sizing_protocol, text_sizing_probe(e));
    let cell = "\x1b[16t"@;
    let end = "\x1b[5n"@;
    let none = Seq::<char>::empty();
    let r = (p1 + p2 + p3, p6 + p7 + end);
    lemma_unwrapped(without, pid);
    lemma_unwrapped(with, pid);
    lemma_regroup(p1, p2, p3, none, cell, p6, p7, end);
    lemma_regroup(p1, p2, p3, "\x1b[c"@, cell, p6, p7, end);
    lemma_nothing_between(r.0, cell, r.1);
    r
}

proof fn lemma_nothing_between(a: Seq<char>, b: Seq<char>, c: Seq<char>)
    ensures
        a + Seq::<char>::empty() + b + c == a + b + c,
{
    assert(a + Seq::<char>::empty() =~= a);
}

/// Outside of tmux the query is all that is asked.
proof fn lemma_unwrapped(options: QueryStdioOptions, pid: u32)
    ensures
        query_text(false, options, pid) == questions("\x1b"@, options, pid),
{
    let qs = questions("\x1b"@, options, pid);
    assert(Seq::<char>::empty() + qs + Seq::<char>::empty() =~= qs);
}

proof fn lemma_regroup(
    p1: Seq<char>,
    p2: Seq<char>,
    p3: Seq<char>,
    p4: Seq<char>,
    p5: Seq<char>,
    p6: Seq<char>,
    p7: Seq<char>,
    p8: Seq<char>,
)
    ensures
        p1 + p2 + p3 + p4 + p5 + p6 + p7 + p8 == (p1 + p2 + p3) + p4 + p5 + (p6 + p7 + p8),
        p1 + p2 + p3 + p4 + p5 + p6 + p7 + p8 == p1 + p2 + p3 + (p4 + p5 + p6 + p7 + p8),
{
    assert(p1 + p2 + p3 + p4 + p5 + p6 + p7 + p8 =~= (p1 + p2 + p3) + p4 + p5 + (p6 + p7 + p8));
    assert(p1 + p2 + p3 + p4 + p5 + p6 + p7 + p8 =~= p1 + p2 + p3 + (p4 + p5 + p6 + p7 + p8));
}

/// Where kitty graphics are asked for besides all else, their probes come first: that for graphics,
/// then those for compression and for shared memory, each where it is opted for. The payload of the
/// last is the name of the object.
pub proof fn what_kitty_adds(without: QueryStdioOptions, with: QueryStdioOptions, pid: u32)
    requires
        without.blacklist_protocols@.contains(ProtocolType::Kitty),
        !with.blacklist_protocols@.contains(ProtocolType::Kitty),
        with.blacklist_protocols@.contains(ProtocolType::Sixel)
            == without.blacklist_protocols@.contains(ProtocolType::Sixel),
        with.terminal_background_color_osc == without.terminal_background_color_osc,
        with.text_sizing_protocol == without.text_sizing_protocol,
    ensures
        query_text(false, with, pid) == "\x1b_Gi=31,s=1,v=1,a=q,t=d,f=24;AAAA\x1b\\"@ + (
        if with.kitty_compression {
            "\x1b_Gi=32,s=1,v=1,a=q,t=d,f=24,o=z;eJxjYGAAAAADAAE=\x1b\\"@
        } else {
            Seq::empty()
        }) + (if with.kitty_shared_memory_probe {
            "\x1b_Gi=33,s=1,v=1,a=q,t=s,f=32;"@ + base64_text(
                vstd::utf8::encode_utf8("/rtui-"@ + decimal(pid as nat) + "-probe"@),
            ) + "\x1b\\"@
        } else {
            Seq::empty()
        }) + query_text(false, without, pid),
{
    let e = "\x1b"@;
    lemma_probes_spelled(pid);
    let sixel = !with.blacklist_protocols@.contains(ProtocolType::Sixel);
    let p1 = kitty_probe(e);
    let p2 = provided(with.kitty_compression, compression_probe(e));
    let p3 = provided(with.kitty_shared_memory_probe, shm_probe(e, pid));
    let p4 = provided(sixel, e + "[c"@);
    let p5 = e + "[16t"@;
    let p6 = provided(with.terminal_background_color_osc, e + "]11;?\x07"@);
    let p7 = provided(with.text_sizing_protocol, text_sizing_probe(e));
    let p8 = e + "[5n"@;
    lemma_unwrapped(without, pid);
    lemma_unwrapped(with, pid);
    lemma_regroup(p1, p2, p3, p4, p5, p6, p7, p8);
    lemma_nothing_before(p4);
}

proof fn lemma_nothing_before(p: Seq<char>)
    ensures
        Seq::<char>::empty() + Seq::<char>::empty() + Seq::<char>::empty() + p == p,
{
    assert(Seq::<char>::empty() + Seq::<char>::empty() + Seq::<char>::empty() + p =~= p);
}

/// Where nothing is wanted, the size of a cell and the status are asked for all the same.
pub proof fn what_is_always_asked(options: QueryStdioOptions, pid: u32)
    requires
        options.blacklist_protocols@.contains(ProtocolType::Kitty),
        options.blacklist_protocols@.contains(ProtocolType::Sixel),
        !options.terminal_background_color_osc,
        !options.text_sizing_protocol,
    ensures
        query_text(false, options, pid) == "\x1b[16t"@ + "\x1b[5n"@,
{
    lemma_spelled();
    assert(query_text(false, options, pid) =~= "\x1b[16t"@ + "\x1b[5n"@);
}

} // verus!
