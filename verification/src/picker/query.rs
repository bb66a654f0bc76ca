//! The query that asks a terminal for its capabilities.
use vstd::prelude::*;
use vstd::string::StringExecFns;

use crate::base64;
use crate::picker::cap_parser::{Parser, QueryStdioOptions};
use crate::picker::ProtocolType;
use crate::text;

verus! {

/// The text, or nothing.
pub open spec fn provided(condition: bool, text: Seq<char>) -> Seq<char> {
    if condition {
        text
    } else {
        Seq::empty()
    }
}

/// What stands before a sequence for the terminal: tmux hands on only what is wrapped for it.
pub open spec fn tmux_start(is_tmux: bool) -> Seq<char> {
    provided(is_tmux, "\x1bPtmux;"@)
}

/// An escape: inside of tmux's wrapping escapes are doubled.
pub open spec fn tmux_escape(is_tmux: bool) -> Seq<char> {
    if is_tmux {
        "\x1b\x1b"@
    } else {
        "\x1b"@
    }
}

/// What stands behind a sequence for the terminal.
pub open spec fn tmux_end(is_tmux: bool) -> Seq<char> {
    provided(is_tmux, "\x1b\\"@)
}

/// The name of the shared memory object of the probe of a process.
pub open spec fn shm_name(pid: u32) -> Seq<char> {
    "/rtui-"@ + text::decimal(pid as nat) + "-probe"@
}

/// Asks for kitty graphics with an image of one pixel that is not to be shown.
pub open spec fn kitty_probe(e: Seq<char>) -> Seq<char> {
    e + "_Gi=31,s=1,v=1,a=q,t=d,f=24;AAAA"@ + e + "\\"@
}

/// Asks the same with the pixel compressed. The payload is `[0, 0, 0]` as a zlib stream in base64.
pub open spec fn compression_probe(e: Seq<char>) -> Seq<char> {
    e + "_Gi=32,s=1,v=1,a=q,t=d,f=24,o=z;eJxjYGAAAAADAAE="@ + e + "\\"@
}

/// Asks the same with the pixel in a shared memory object, whose name is the payload.
pub open spec fn shm_probe(e: Seq<char>, pid: u32) -> Seq<char> {
    e + "_Gi=33,s=1,v=1,a=q,t=s,f=32;"@ + base64::base64_text(
        vstd::utf8::encode_utf8(shm_name(pid)),
    ) + e + "\\"@
}

/// Asks for the position of the cursor before and behind a space of double width, and behind one
/// of double scale.
pub open spec fn text_sizing_probe(e: Seq<char>) -> Seq<char> {
    e + "[6n"@ + e + "]66;w=2; \x07"@ + e + "[6n"@ + e + "]66;s=2; \x07"@ + e + "[6n"@
}

/// All that is asked, with `e` for each escape.
pub open spec fn questions(e: Seq<char>, options: QueryStdioOptions, pid: u32) -> Seq<char> {
    let kitty = !options.blacklist_protocols@.contains(ProtocolType::Kitty);
    let sixel = !options.blacklist_protocols@.contains(ProtocolType::Sixel);
    provided(kitty, kitty_probe(e)) + provided(
        kitty && options.kitty_compression,
        compression_probe(e),
    ) + provided(kitty && options.kitty_shared_memory_probe, shm_probe(e, pid)) + provided(
        sixel,
        e + "[c"@,
    ) + (e + "[16t"@) + provided(options.terminal_background_color_osc, e + "]11;?\x07"@) + provided(
        options.text_sizing_protocol,
        text_sizing_probe(e),
    ) + (e + "[5n"@)
}

/// The query: all that is asked, wrapped for tmux where the terminal is inside of it.
pub open spec fn query_text(is_tmux: bool, options: QueryStdioOptions, pid: u32) -> Seq<char> {
    tmux_start(is_tmux) + questions(tmux_escape(is_tmux), options, pid) + tmux_end(is_tmux)
}

/// A number of up to 32 bits has at most ten digits.
proof fn lemma_decimal_len(n: nat)
    requires
        n <= 0xffff_ffff,
    ensures
        text::decimal(n).len() <= 10,
{
    reveal_with_fuel(text::decimal, 11);
}

/// The name of a probe's object is written in ASCII.
pub proof fn lemma_shm_name_ascii(pid: u32)
    ensures
        vstd::utf8::encode_utf8(shm_name(pid)).len() == shm_name(pid).len(),
        shm_name(pid).len() <= 22,
{
    reveal_strlit("/rtui-");
    reveal_strlit("-probe");
    let digits = text::decimal(pid as nat);
    text::lemma_decimal_digits(pid as nat);
    lemma_decimal_len(pid as nat);
    assert(vstd::utf8::is_ascii_chars(shm_name(pid))) by {
        assert forall|i: int| 0 <= i < shm_name(pid).len() implies shm_name(pid)[i] as int <= 127 by {
            if 6 <= i < 6 + digits.len() {
                assert(shm_name(pid)[i] == digits[i - 6]);
            }
        }
    }
    vstd::utf8::is_ascii_chars_encode_utf8(shm_name(pid));
}

/// Appends the decimal text of a number.
fn push_decimal(out: &mut String, n: u32)
    ensures
        final(out)@ == old(out)@ + text::decimal(n as nat),
    decreases n,
{
    let ghost before = out@;
    if n >= 10 {
        push_decimal(out, n / 10);
    }
    let digit = match n % 10 {
        0 => "0",
        1 => "1",
        2 => "2",
        3 => "3",
        4 => "4",
        5 => "5",
        6 => "6",
        7 => "7",
        8 => "8",
        _ => "9",
    };
    proof {
        reveal_strlit("0");
        reveal_strlit("1");
        reveal_strlit("2");
        reveal_strlit("3");
        reveal_strlit("4");
        reveal_strlit("5");
        reveal_strlit("6");
        reveal_strlit("7");
        reveal_strlit("8");
        reveal_strlit("9");
    }
    assert(digit@ =~= seq![('0' as int + n % 10) as char]);
    out.append(digit);
    assert(out@ =~= before + text::decimal(n as nat));
}

/// The name of the shared memory object that the probe of a process points the terminal at.
///
/// Whoever creates the object and the query that names it agree on it through the number of the
/// process. The names of image transmissions have the same beginning and end in a number, so none
/// of them is this one.
pub fn shm_probe_name(pid: u32) -> (r: String)
    ensures
        r@ == shm_name(pid),
{
    let mut name = String::new();
    name.append("/rtui-");
    push_decimal(&mut name, pid);
    name.append("-probe");
    assert(name@ =~= shm_name(pid));
    name
}

/// Whether the protocol is in the list.
fn is_listed(list: &Vec<ProtocolType>, protocol: ProtocolType) -> (r: bool)
    ensures
        r == list@.contains(protocol),
{
    for i in 0..list.len()
        invariant
            forall|j: int| 0 <= j < i ==> list[j] != protocol,
    {
        if list[i] == protocol {
            return true;
        }
    }
    false
}

impl Parser {
    /// What tmux wants around a sequence for the terminal: the start, what stands for an escape,
    /// and the end.
    pub fn tmux_start_escape_end(is_tmux: bool) -> (r: (
        &'static str,
        &'static str,
        &'static str,
    ))
        ensures
            r.0@ == tmux_start(is_tmux),
            r.1@ == tmux_escape(is_tmux),
            r.2@ == tmux_end(is_tmux),
    {
        proof {
            reveal_strlit("");
            assert(""@ =~= Seq::empty());
        }
        match is_tmux {
            false => ("", "\x1b", ""),
            true => ("\x1bPtmux;", "\x1b\x1b", "\x1b\\"),
        }
    }

    /// The query for the terminal of the process `pid`.
    pub fn query(is_tmux: bool, options: QueryStdioOptions, pid: u32) -> (r: String)
        ensures
            r@ == query_text(is_tmux, options, pid),
    {
        let (start, escape, end) = Parser::tmux_start_escape_end(is_tmux);
        let questions = Parser::questions(escape, &options, pid);
        let mut buf = String::new();
        buf.append(start);
        buf.append(questions.as_str());
        buf.append(end);
        assert(buf@ =~= query_text(is_tmux, options, pid));
        buf
    }

    /// All that is asked.
    fn questions(escape: &str, options: &QueryStdioOptions, pid: u32) -> (r: String)
        ensures
            r@ == questions(escape@, *options, pid),
    {
        let kitty = !is_listed(&options.blacklist_protocols, ProtocolType::Kitty);
        let sixel = !is_listed(&options.blacklist_protocols, ProtocolType::Sixel);
        let ghost e = escape@;
        let mut buf = String::new();
        if kitty {
            Parser::push_kitty_probe(&mut buf, escape);
        }
        assert(buf@ =~= provided(kitty, kitty_probe(e)));
        let ghost asked = buf@;
        if kitty && options.kitty_compression {
            Parser::push_compression_probe(&mut buf, escape);
        }
        assert(buf@ =~= asked + provided(kitty && options.kitty_compression, compression_probe(e)));
        let ghost asked = buf@;
        if kitty && options.kitty_shared_memory_probe {
            Parser::push_shm_probe(&mut buf, escape, pid);
        }
        assert(buf@ =~= asked + provided(
            kitty && options.kitty_shared_memory_probe,
            shm_probe(e, pid),
        ));
        let ghost asked = buf@;
        if sixel {
            // Device attributes, sixel support among them.
            Parser::push_question(&mut buf, escape, "[c");
        }
        assert(buf@ =~= asked + provided(sixel, e + "[c"@));
        // The size of a cell in pixels.
        Parser::push_question(&mut buf, escape, "[16t");
        let ghost asked = buf@;
        if options.terminal_background_color_osc {
            Parser::push_question(&mut buf, escape, "]11;?\x07");
        }
        assert(buf@ =~= asked + provided(options.terminal_background_color_osc, e + "]11;?\x07"@));
        let ghost asked = buf@;
        if options.text_sizing_protocol {
            Parser::push_text_sizing_probe(&mut buf, escape);
        }
        assert(buf@ =~= asked + provided(options.text_sizing_protocol, text_sizing_probe(e)));
        // Every terminal answers this one, so there is always a reply to wait for.
        Parser::push_question(&mut buf, escape, "[5n");
        buf
    }

    /// Appends an escape and what follows it.
    fn push_question(buf: &mut String, escape: &str, question: &str)
        ensures
            final(buf)@ == old(buf)@ + (escape@ + question@),
    {
        let ghost before = buf@;
        buf.append(escape);
        buf.append(question);
        assert(buf@ =~= before + (escape@ + question@));
    }

    /// Appends the probe for kitty graphics.
    fn push_kitty_probe(buf: &mut String, escape: &str)
        ensures
            final(buf)@ == old(buf)@ + kitty_probe(escape@),
    {
        let ghost before = buf@;
        Parser::push_question(buf, escape, "_Gi=31,s=1,v=1,a=q,t=d,f=24;AAAA");
        Parser::push_question(buf, escape, "\\");
        assert(buf@ =~= before + kitty_probe(escape@));
    }

    /// Appends the probe for compressed transmissions.
    fn push_compression_probe(buf: &mut String, escape: &str)
        ensures
            final(buf)@ == old(buf)@ + compression_probe(escape@),
    {
        let ghost before = buf@;
        Parser::push_question(buf, escape, "_Gi=32,s=1,v=1,a=q,t=d,f=24,o=z;eJxjYGAAAAADAAE=");
        Parser::push_question(buf, escape, "\\");
        assert(buf@ =~= before + compression_probe(escape@));
    }

    /// Appends the probe for shared memory objects.
    fn push_shm_probe(buf: &mut String, escape: &str, pid: u32)
        ensures
            final(buf)@ == old(buf)@ + shm_probe(escape@, pid),
    {
        let ghost before = buf@;
        let name = shm_probe_name(pid);
        let mut payload = String::new();
        proof {
            lemma_shm_name_ascii(pid);
            vstd::utf8::is_ascii_chars_encode_utf8(Seq::<char>::empty());
        }
        base64::encode_append(name.as_str().as_bytes(), &mut payload);
        assert(payload@ =~= base64::base64_text(vstd::utf8::encode_utf8(shm_name(pid))));
        Parser::push_question(buf, escape, "_Gi=33,s=1,v=1,a=q,t=s,f=32;");
        buf.append(payload.as_str());
        Parser::push_question(buf, escape, "\\");
        assert(buf@ =~= before + shm_probe(escape@, pid));
    }

    /// Appends the probe for the text sizing protocol.
    fn push_text_sizing_probe(buf: &mut String, escape: &str)
        ensures
            final(buf)@ == old(buf)@ + text_sizing_probe(escape@),
    {
        let ghost before = buf@;
        Parser::push_question(buf, escape, "[6n");
        Parser::push_question(buf, escape, "]66;w=2; \x07");
        Parser::push_question(buf, escape, "[6n");
        Parser::push_question(buf, escape, "]66;s=2; \x07");
        Parser::push_question(buf, escape, "[6n");
        assert(buf@ =~= before + text_sizing_probe(escape@));
    }
}

} // verus!
