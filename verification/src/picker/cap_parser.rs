//! The query that is sent to the terminal, and the parser of the terminal's replies.
use vstd::prelude::*;

use crate::picker::ProtocolType;
use crate::text;

verus! {

/// How long a terminal may stay silent before its reply is given up.
pub const STDIN_READ_TIMEOUT_MILLIS: u64 = 2000;

/// The duration of a number of milliseconds.
pub uninterp spec fn milliseconds(millis: u64) -> std::time::Duration;

/// Of `std::time::Duration::from_millis` this trusts that the duration is determined by the
/// number of milliseconds, and names it `milliseconds`.
pub assume_specification[ std::time::Duration::from_millis ](millis: u64) -> (r:
    std::time::Duration)
    ensures
        r == milliseconds(millis),
;

/// What to ask the terminal for besides what is always asked.
pub struct QueryStdioOptions {
    /// How long the terminal may stay silent.
    pub timeout: std::time::Duration,
    /// Ask for support of the text sizing protocol. Where the terminal has it,
    /// `Capability::TextSizingProtocol` is among the capabilities.
    pub text_sizing_protocol: bool,
    /// Ask for the background color, which then comes as `Capability::Background`. It helps where
    /// a protocol has no alpha channel but only full transparency, as sixel does.
    pub terminal_background_color_osc: bool,
    /// Protocols that are not asked for: kitty graphics and sixel can be left out so.
    pub blacklist_protocols: Vec<ProtocolType>,
    /// Probe for compressed kitty transmissions (`o=z`).
    ///
    /// Compression saves bandwidth and costs time on both ends, so it is off unless it is asked
    /// for. It pays where the link to the terminal is slow and the images compress well.
    pub kitty_compression: bool,
    /// Transmit kitty images through shared memory objects whose names hold this number, which is
    /// best the number of the process. It is honoured where the terminal has answered the probe
    /// for shared memory.
    pub kitty_shared_memory_object: Option<u32>,
    /// Probe whether the terminal can read a shared memory object (`t=s`), which a terminal on
    /// another machine cannot. The object that the probe names has to exist when the query is
    /// sent.
    pub kitty_shared_memory_probe: bool,
}

impl Default for QueryStdioOptions {
    /// Nothing but what is always asked, for up to two seconds.
    fn default() -> (r: Self)
        ensures
            r.timeout == milliseconds(STDIN_READ_TIMEOUT_MILLIS),
            !r.text_sizing_protocol,
            !r.terminal_background_color_osc,
            r.blacklist_protocols@ == Seq::<ProtocolType>::empty(),
            !r.kitty_compression,
            r.kitty_shared_memory_object is None,
            !r.kitty_shared_memory_probe,
    {
        QueryStdioOptions {
            timeout: std::time::Duration::from_millis(STDIN_READ_TIMEOUT_MILLIS),
            text_sizing_protocol: false,
            terminal_background_color_osc: false,
            blacklist_protocols: Vec::new(),
            kitty_compression: false,
            kitty_shared_memory_object: None,
            kitty_shared_memory_probe: false,
        }
    }
}

/// What kind of reply the parser is in the middle of.
#[derive(Debug, PartialEq, Eq, Structural, Clone, Copy)]
pub enum ResponseParseState {
    Unknown,
    CSIResponse,
    OSCResponse,
    KittyResponse,
}

/// One thing that a terminal has reported.
#[derive(Debug, PartialEq, Clone)]
pub enum Response {
    Kitty,
    Sixel,
    RectangularOps,
    KittyCompression,
    KittySharedMemory,
    CellSize(Option<(u16, u16)>),
    CursorPositionReport(u16, u16),
    Background(u8, u8, u8),
    Status,
}

/// The state of a [`Parser`]: what it has read of the current reply, and what kind that is.
pub struct ParserState {
    pub data: Seq<char>,
    pub sequence: ResponseParseState,
}

/// A parser for the replies of a terminal, which takes them character by character.
pub struct Parser {
    data: Vec<char>,
    sequence: ResponseParseState,
}

impl View for Parser {
    type V = ParserState;

    closed spec fn view(&self) -> ParserState {
        ParserState { data: self.data@, sequence: self.sequence }
    }
}

/// The state of a parser that has read nothing.
pub open spec fn fresh() -> ParserState {
    ParserState { data: Seq::empty(), sequence: ResponseParseState::Unknown }
}

/// What kind of reply it is that began with `data` and goes on with `next`.
pub open spec fn identify(data: Seq<char>, next: char) -> ResponseParseState {
    if next == ';' && (data == "_Gi=31"@ || data == "_Gi=32"@ || data == "_Gi=33"@) {
        ResponseParseState::KittyResponse
    } else if data == "["@ {
        ResponseParseState::CSIResponse
    } else if data == "]"@ {
        ResponseParseState::OSCResponse
    } else {
        ResponseParseState::Unknown
    }
}

/// What one attribute of a device attributes report stands for.
pub open spec fn attribute(attr: Seq<char>) -> Option<Response> {
    if attr == "4"@ {
        Some(Response::Sixel)
    } else if attr == "28"@ {
        Some(Response::RectangularOps)
    } else {
        None
    }
}

/// What a list of device attributes stands for.
pub open spec fn device_attributes(list: Seq<char>) -> Seq<Response> {
    text::split(list, ';').filter_map(|attr: Seq<char>| attribute(attr))
}

/// The width and height of a cell in a report of three fields, the second of them the height and
/// the third the width. A size of zero is none.
pub open spec fn cell_size(report: Seq<char>) -> Option<(u16, u16)> {
    let fields = text::split(report, ';');
    if fields.len() != 3 {
        None
    } else {
        match (text::u16_value(fields[1], 10), text::u16_value(fields[2], 10)) {
            (Some(h), Some(w)) => if w > 0 && h > 0 {
                Some((w, h))
            } else {
                None
            },
            _ => None,
        }
    }
}

/// The column and row in a report of two fields, the row first.
pub open spec fn cursor_position(report: Seq<char>) -> Option<(u16, u16)> {
    let fields = text::split(report, ';');
    if fields.len() != 2 {
        None
    } else {
        match (text::u16_value(fields[0], 10), text::u16_value(fields[1], 10)) {
            (Some(row), Some(column)) => Some((column, row)),
            _ => None,
        }
    }
}

/// The color in a report that holds `rgb:` and three hexadecimal numbers of up to 16 bits, each
/// scaled down to its upper eight.
pub open spec fn background(report: Seq<char>) -> Option<(u8, u8, u8)> {
    match text::after_first(report, "rgb:"@) {
        None => None,
        Some(rest) => {
            let rgb = text::trim_end(
                text::trim_start(rest, "\x07\x1b\\"@),
                "\x07\x1b\\"@,
            );
            let parts = text::split(rgb, '/');
            if parts.len() != 3 {
                None
            } else {
                match (
                    text::u16_value(parts[0], 16),
                    text::u16_value(parts[1], 16),
                    text::u16_value(parts[2], 16),
                ) {
                    (Some(r), Some(g), Some(b)) => Some(
                        ((r / 256) as u8, (g / 256) as u8, (b / 256) as u8),
                    ),
                    _ => None,
                }
            }
        },
    }
}

/// What a reply to a kitty graphics query stands for, up to its closing backslash.
pub open spec fn kitty_reply(reply: Seq<char>) -> Seq<Response> {
    if reply == "_Gi=31;OK\x1b"@ {
        seq![Response::Kitty]
    } else if reply == "_Gi=32;OK\x1b"@ {
        seq![Response::KittyCompression]
    } else if reply == "_Gi=33;OK\x1b"@ {
        seq![Response::KittySharedMemory]
    } else {
        Seq::empty()
    }
}

/// The one response, or none.
pub open spec fn at_most_one(response: Option<Response>) -> Seq<Response> {
    match response {
        Some(r) => seq![r],
        None => Seq::empty(),
    }
}

/// One more character of a reply that is kept for later.
pub open spec fn kept(st: ParserState, next: char) -> (ParserState, Seq<Response>) {
    (ParserState { data: st.data.push(next), sequence: st.sequence }, Seq::empty())
}

/// A character of a control sequence: a final character completes it, an escape drops it.
pub open spec fn step_csi(st: ParserState, next: char) -> (ParserState, Seq<Response>) {
    if st.data == "[0"@ && next == 'n' {
        (fresh(), seq![Response::Status])
    } else if next == 'c' && "[?"@.is_prefix_of(st.data) {
        (fresh(), device_attributes(st.data.skip(2)))
    } else if next == 't' {
        (fresh(), seq![Response::CellSize(cell_size(st.data))])
    } else if next == 'R' {
        (
            fresh(),
            at_most_one(
                match cursor_position(st.data.skip(1)) {
                    Some((x, y)) => Some(Response::CursorPositionReport(x, y)),
                    None => None,
                },
            ),
        )
    } else if next == '\x1b' {
        (fresh(), Seq::empty())
    } else {
        kept(st, next)
    }
}

/// A character of an operating system command: a bell or `ESC \` completes it.
pub open spec fn step_osc(st: ParserState, next: char) -> (ParserState, Seq<Response>) {
    let data = st.data.push(next);
    if next == '\x07' || "\x1b\\"@.is_suffix_of(data) {
        (
            fresh(),
            at_most_one(
                match background(data) {
                    Some((r, g, b)) => Some(Response::Background(r, g, b)),
                    None => None,
                },
            ),
        )
    } else {
        kept(st, next)
    }
}

/// What the parser's state is after one more character, and what that completed.
pub open spec fn step(st: ParserState, next: char) -> (ParserState, Seq<Response>) {
    match st.sequence {
        ResponseParseState::Unknown => if next == '\x1b' {
            (fresh(), Seq::empty())
        } else {
            (
                ParserState { data: st.data.push(next), sequence: identify(st.data, next) },
                Seq::empty(),
            )
        },
        ResponseParseState::CSIResponse => step_csi(st, next),
        ResponseParseState::OSCResponse => step_osc(st, next),
        ResponseParseState::KittyResponse => if next == '\\' {
            (fresh(), kitty_reply(st.data))
        } else {
            kept(st, next)
        },
    }
}

/// What holds of the data of every parser: it is what its kind of reply begins with.
pub open spec fn well_formed(st: ParserState) -> bool {
    match st.sequence {
        ResponseParseState::Unknown => true,
        ResponseParseState::CSIResponse => st.data.len() >= 2 && st.data[0] == '[',
        ResponseParseState::OSCResponse => st.data.len() >= 2 && st.data[0] == ']',
        ResponseParseState::KittyResponse => st.data.len() >= 7 && (st.data.take(7)
            == "_Gi=31;"@ || st.data.take(7) == "_Gi=32;"@ || st.data.take(7) == "_Gi=33;"@),
    }
}

/// A character keeps the invariant of the parser.
pub proof fn step_keeps_well_formed(st: ParserState, next: char)
    requires
        well_formed(st),
    ensures
        well_formed(step(st, next).0),
{
    reveal_strlit("[");
    reveal_strlit("]");
    reveal_strlit("_Gi=31");
    reveal_strlit("_Gi=32");
    reveal_strlit("_Gi=33");
    reveal_strlit("_Gi=31;");
    reveal_strlit("_Gi=32;");
    reveal_strlit("_Gi=33;");
    let after = step(st, next).0;
    if st.sequence is Unknown && after.sequence is KittyResponse {
        assert(after.data.take(7) =~= after.data);
        if st.data == "_Gi=31"@ {
            assert(after.data =~= "_Gi=31;"@);
        } else if st.data == "_Gi=32"@ {
            assert(after.data =~= "_Gi=32;"@);
        } else {
            assert(after.data =~= "_Gi=33;"@);
        }
    }
    if st.sequence is KittyResponse && after.sequence is KittyResponse {
        assert(after.data.take(7) =~= st.data.take(7));
    }
}

impl Default for Parser {
    fn default() -> (r: Self)
        ensures
            r@ == fresh(),
    {
        Parser::new()
    }
}

impl Parser {
    #[verifier::type_invariant]
    spec fn inv(self) -> bool {
        well_formed(ParserState { data: self.data@, sequence: self.sequence })
    }

    /// A parser that has read nothing.
    pub fn new() -> (r: Self)
        ensures
            r@ == fresh(),
    {
        let r = Parser { data: Vec::new(), sequence: ResponseParseState::Unknown };
        assert(r@.data =~= Seq::empty());
        r
    }

    /// Takes the next character of the terminal's reply, and returns what it completed.
    pub fn push(&mut self, next: char) -> (r: Vec<Response>)
        ensures
            final(self)@ == step(old(self)@, next).0,
            r@ == step(old(self)@, next).1,
            well_formed(final(self)@),
    {
        let ghost st = self@;
        proof {
            use_type_invariant(&*self);
            step_keeps_well_formed(st, next);
        }
        let mut before = Parser::new();
        std::mem::swap(self, &mut before);
        let Parser { data, sequence } = before;
        let (parser, responses) = match sequence {
            ResponseParseState::Unknown => Parser::push_unknown(data, next),
            ResponseParseState::CSIResponse => Parser::push_csi(data, next),
            ResponseParseState::OSCResponse => Parser::push_osc(data, next),
            ResponseParseState::KittyResponse => Parser::push_kitty(data, next),
        };
        *self = parser;
        responses
    }

    /// A character before the kind of the reply is known.
    fn push_unknown(data: Vec<char>, next: char) -> (r: (Parser, Vec<Response>))
        ensures
            (r.0@, r.1@) == step(
                ParserState { data: data@, sequence: ResponseParseState::Unknown },
                next,
            ),
    {
        if next == '\x1b' {
            // A reply whose kind is not known yet is dropped for a new one.
            return Parser::restart();
        }
        let sequence = if next == ';' && (text::eq_str(&data, "_Gi=31") || text::eq_str(
            &data,
            "_Gi=32",
        ) || text::eq_str(&data, "_Gi=33")) {
            ResponseParseState::KittyResponse
        } else if text::eq_str(&data, "[") {
            ResponseParseState::CSIResponse
        } else if text::eq_str(&data, "]") {
            ResponseParseState::OSCResponse
        } else {
            ResponseParseState::Unknown
        };
        proof {
            step_keeps_well_formed(
                ParserState { data: data@, sequence: ResponseParseState::Unknown },
                next,
            );
        }
        Parser::keep(data, next, sequence)
    }

    /// Forgets what was read.
    fn restart() -> (r: (Parser, Vec<Response>))
        ensures
            r.0@ == fresh(),
            r.1@ == Seq::<Response>::empty(),
    {
        (Parser::new(), Vec::new())
    }

    /// Forgets what was read, which the response completes.
    fn restart_with(response: Response) -> (r: (Parser, Vec<Response>))
        ensures
            r.0@ == fresh(),
            r.1@ == seq![response],
    {
        (Parser::new(), vec![response])
    }

    /// Goes on with one character more.
    fn keep(data: Vec<char>, next: char, sequence: ResponseParseState) -> (r: (
        Parser,
        Vec<Response>,
    ))
        requires
            well_formed(ParserState { data: data@.push(next), sequence }),
        ensures
            r.0@ == (ParserState { data: data@.push(next), sequence }),
            r.1@ == Seq::<Response>::empty(),
    {
        let mut data = data;
        data.push(next);
        (Parser { data, sequence }, Vec::new())
    }

    /// A character of a control sequence.
    fn push_csi(data: Vec<char>, next: char) -> (r: (Parser, Vec<Response>))
        requires
            well_formed(ParserState { data: data@, sequence: ResponseParseState::CSIResponse }),
        ensures
            (r.0@, r.1@) == step(
                ParserState { data: data@, sequence: ResponseParseState::CSIResponse },
                next,
            ),
    {
        if text::eq_str(&data, "[0") && next == 'n' {
            return Parser::restart_with(Response::Status);
        }
        match next {
            'c' if text::starts_with(&data, "[?") => {
                proof {
                    reveal_strlit("[?");
                }
                (Parser::new(), Parser::device_attributes(&data, 2))
            },
            't' => Parser::restart_with(Response::CellSize(Parser::cell_size(&data))),
            'R' => match Parser::cursor_position(&data, 1) {
                Some((x, y)) => Parser::restart_with(Response::CursorPositionReport(x, y)),
                None => Parser::restart(),
            },
            '\x1b' => Parser::restart(),
            _ => {
                proof {
                    step_keeps_well_formed(
                        ParserState { data: data@, sequence: ResponseParseState::CSIResponse },
                        next,
                    );
                }
                Parser::keep(data, next, ResponseParseState::CSIResponse)
            },
        }
    }

    /// What the device attributes from `from` on stand for.
    fn device_attributes(data: &Vec<char>, from: usize) -> (r: Vec<Response>)
        requires
            from <= data.len(),
        ensures
            r@ == device_attributes(data@.skip(from as int)),
    {
        let attrs = text::split_from(data, from, ';');
        let ghost all = text::split(data@.skip(from as int), ';');
        let ghost f = |attr: Seq<char>| attribute(attr);
        let mut caps: Vec<Response> = Vec::new();
        assert(all.take(0).filter_map(f) =~= Seq::empty());
        for i in 0..attrs.len()
            invariant
                all == text::pieces(attrs@),
                f == (|attr: Seq<char>| attribute(attr)),
                caps@ == all.take(i as int).filter_map(f),
        {
            assert(all[i as int] == attrs[i as int]@);
            proof {
                all.lemma_filter_map_take_succ(f, i as int);
            }
            if text::eq_str(&attrs[i], "4") {
                caps.push(Response::Sixel);
            } else if text::eq_str(&attrs[i], "28") {
                caps.push(Response::RectangularOps);
            }
        }
        assert(all.take(all.len() as int) =~= all);
        caps
    }

    /// The width and height of a cell in a report.
    fn cell_size(data: &Vec<char>) -> (r: Option<(u16, u16)>)
        ensures
            r == cell_size(data@),
    {
        let fields = text::split_from(data, 0, ';');
        assert(data@.skip(0) =~= data@);
        assert(text::pieces(fields@).len() == fields@.len());
        if fields.len() != 3 {
            return None;
        }
        assert(text::pieces(fields@)[1] == fields@[1]@);
        assert(text::pieces(fields@)[2] == fields@[2]@);
        match (text::parse_u16(&fields[1], 10), text::parse_u16(&fields[2], 10)) {
            (Some(h), Some(w)) => if w > 0 && h > 0 {
                Some((w, h))
            } else {
                None
            },
            _ => None,
        }
    }

    /// The column and row in the report from `from` on.
    fn cursor_position(data: &Vec<char>, from: usize) -> (r: Option<(u16, u16)>)
        requires
            from <= data.len(),
        ensures
            r == cursor_position(data@.skip(from as int)),
    {
        let fields = text::split_from(data, from, ';');
        assert(text::pieces(fields@).len() == fields@.len());
        if fields.len() != 2 {
            return None;
        }
        assert(text::pieces(fields@)[0] == fields@[0]@);
        assert(text::pieces(fields@)[1] == fields@[1]@);
        match (text::parse_u16(&fields[0], 10), text::parse_u16(&fields[1], 10)) {
            (Some(row), Some(column)) => Some((column, row)),
            _ => None,
        }
    }

    /// A character of an operating system command.
    fn push_osc(data: Vec<char>, next: char) -> (r: (Parser, Vec<Response>))
        requires
            well_formed(ParserState { data: data@, sequence: ResponseParseState::OSCResponse }),
        ensures
            (r.0@, r.1@) == step(
                ParserState { data: data@, sequence: ResponseParseState::OSCResponse },
                next,
            ),
    {
        proof {
            step_keeps_well_formed(
                ParserState { data: data@, sequence: ResponseParseState::OSCResponse },
                next,
            );
        }
        let mut data = data;
        data.push(next);
        if next == '\x07' || text::ends_with(&data, "\x1b\\") {
            match Parser::background(&data) {
                Some((r, g, b)) => Parser::restart_with(Response::Background(r, g, b)),
                None => Parser::restart(),
            }
        } else {
            (Parser { data, sequence: ResponseParseState::OSCResponse }, Vec::new())
        }
    }

    /// The color in a report, each of its three parts scaled from 16 bits to 8.
    fn background(data: &Vec<char>) -> (r: Option<(u8, u8, u8)>)
        ensures
            r == background(data@),
    {
        let rest = match text::between(data, "rgb:") {
            None => {
                return None;
            },
            Some(rest) => rest,
        };
        let rgb = text::trim(&rest, "\x07\x1b\\");
        let parts = text::split_from(&rgb, 0, '/');
        assert(rgb@.skip(0) =~= rgb@);
        assert(text::pieces(parts@).len() == parts@.len());
        if parts.len() != 3 {
            return None;
        }
        assert(text::pieces(parts@)[0] == parts@[0]@);
        assert(text::pieces(parts@)[1] == parts@[1]@);
        assert(text::pieces(parts@)[2] == parts@[2]@);
        match (
            text::parse_u16(&parts[0], 16),
            text::parse_u16(&parts[1], 16),
            text::parse_u16(&parts[2], 16),
        ) {
            (Some(r), Some(g), Some(b)) => Some((upper_byte(r), upper_byte(g), upper_byte(b))),
            _ => None,
        }
    }

    /// A character of a reply to a kitty graphics query.
    fn push_kitty(data: Vec<char>, next: char) -> (r: (Parser, Vec<Response>))
        requires
            well_formed(ParserState { data: data@, sequence: ResponseParseState::KittyResponse }),
        ensures
            (r.0@, r.1@) == step(
                ParserState { data: data@, sequence: ResponseParseState::KittyResponse },
                next,
            ),
    {
        if next == '\\' {
            if text::eq_str(&data, "_Gi=31;OK\x1b") {
                Parser::restart_with(Response::Kitty)
            } else if text::eq_str(&data, "_Gi=32;OK\x1b") {
                Parser::restart_with(Response::KittyCompression)
            } else if text::eq_str(&data, "_Gi=33;OK\x1b") {
                Parser::restart_with(Response::KittySharedMemory)
            } else {
                Parser::restart()
            }
        } else {
            proof {
                step_keeps_well_formed(
                    ParserState { data: data@, sequence: ResponseParseState::KittyResponse },
                    next,
                );
            }
            Parser::keep(data, next, ResponseParseState::KittyResponse)
        }
    }
}

/// The upper eight of sixteen bits.
fn upper_byte(n: u16) -> (r: u8)
    ensures
        r == n / 256,
{
    let upper = (n >> 8) as u8;
    assert(upper == n / 256) by (bit_vector)
        requires
            upper == (n >> 8) as u8,
    ;
    upper
}

} // verus!
