//! What whole replies of a terminal mean to the parser.
use vstd::prelude::*;

use crate::picker::cap_parser::{
    at_most_one, attribute, background, fresh, identify, kitty_reply, step, step_csi,
    step_keeps_well_formed, well_formed, ParserState, Response, ResponseParseState,
};
use crate::text::{
    after_first, decimal, is_first, lemma_decimal_digits, lemma_decimal_value, lemma_is_first,
    lemma_split_concat, lemma_split_none, lemma_u16_of_decimal, number_value, occurs_at, split,
    trim_end, trim_start, u16_value,
};

verus! {

/// What the parser's state is after `input`, and all that the input completed.
pub open spec fn run(st: ParserState, input: Seq<char>) -> (ParserState, Seq<Response>)
    decreases input.len(),
{
    if input.len() == 0 {
        (st, Seq::empty())
    } else {
        let before = run(st, input.drop_last());
        let after = step(before.0, input.last());
        (after.0, before.1 + after.1)
    }
}

/// The parser gives up what it has read when an escape comes.
pub open spec fn interruptible(st: ParserState) -> bool {
    st.sequence is Unknown || st.sequence is CSIResponse
}

/// One character more adds what it completes.
pub proof fn reading_one_more(st: ParserState, input: Seq<char>, next: char)
    ensures
        run(st, Seq::empty()) == (st, Seq::<Response>::empty()),
        run(st, input.push(next)).0 == step(run(st, input).0, next).0,
        run(st, input.push(next)).1 == run(st, input).1 + step(run(st, input).0, next).1,
{
    assert(input.push(next).drop_last() =~= input);
}

/// Where a reply is cut in two makes no difference: the parts, read one after the other, leave
/// the same state and complete the same responses.
pub proof fn reading_in_parts(st: ParserState, first: Seq<char>, second: Seq<char>)
    ensures
        run(st, first + second).0 == run(run(st, first).0, second).0,
        run(st, first + second).1 == run(st, first).1 + run(run(st, first).0, second).1,
    decreases second.len(),
{
    let whole = first + second;
    if second.len() == 0 {
        assert(whole =~= first);
        assert(run(st, first).1 + Seq::<Response>::empty() =~= run(st, first).1);
    } else {
        assert(whole.drop_last() =~= first + second.drop_last());
        reading_in_parts(st, first, second.drop_last());
        assert(run(st, whole).1 =~= run(st, first).1 + run(run(st, first).0, second).1);
    }
}

/// Whatever is read, the invariant of the parser holds.
pub proof fn run_keeps_well_formed(st: ParserState, input: Seq<char>)
    requires
        well_formed(st),
    ensures
        well_formed(run(st, input).0),
    decreases input.len(),
{
    if input.len() > 0 {
        run_keeps_well_formed(st, input.drop_last());
        step_keeps_well_formed(run(st, input.drop_last()).0, input.last());
    }
}

/// A response comes only with the end of its reply: the parser starts anew after it.
pub proof fn response_ends_a_reply(st: ParserState, next: char)
    ensures
        step(st, next).1.len() > 0 ==> step(st, next).0 == fresh(),
{
}

/// A status report is never mixed with other responses.
pub proof fn status_comes_alone(st: ParserState, next: char)
    ensures
        step(st, next).1.contains(Response::Status) ==> step(st, next).1 == seq![
            Response::Status,
        ],
{
    if st.sequence is CSIResponse {
        let f = |attr: Seq<char>| attribute(attr);
        let attrs = split(st.data.skip(2), ';');
        if attrs.filter_map(f).contains(Response::Status) {
            attrs.lemma_filter_map_contains(f, Response::Status);
        }
    }
}

/// A capability of kitty is reported for no other reply than an `OK` to the probe for it.
pub proof fn kitty_capabilities_need_an_ok(st: ParserState, next: char)
    ensures
        step(st, next).1.contains(Response::Kitty) ==> st.sequence is KittyResponse && next == '\\'
            && st.data == "_Gi=31;OK\x1b"@,
        step(st, next).1.contains(Response::KittyCompression) ==> st.sequence is KittyResponse
            && next == '\\' && st.data == "_Gi=32;OK\x1b"@,
        step(st, next).1.contains(Response::KittySharedMemory) ==> st.sequence is KittyResponse
            && next == '\\' && st.data == "_Gi=33;OK\x1b"@,
{
    if st.sequence is CSIResponse {
        let f = |attr: Seq<char>| attribute(attr);
        let attrs = split(st.data.skip(2), ';');
        let found = attrs.filter_map(f);
        if found.contains(Response::Kitty) {
            attrs.lemma_filter_map_contains(f, Response::Kitty);
        }
        if found.contains(Response::KittyCompression) {
            attrs.lemma_filter_map_contains(f, Response::KittyCompression);
        }
        if found.contains(Response::KittySharedMemory) {
            attrs.lemma_filter_map_contains(f, Response::KittySharedMemory);
        }
    }
}

/// An escape ends whatever the parser has not identified, and every control sequence, without a
/// response.
pub proof fn escape_starts_anew(st: ParserState)
    requires
        interruptible(st),
    ensures
        step(st, '\x1b') == (fresh(), Seq::<Response>::empty()),
{
    reveal_strlit("[0");
}

proof fn lemma_run_one(st: ParserState, c: char)
    ensures
        run(st, seq![c]) == step(st, c),
{
    assert(seq![c].drop_last() =~= Seq::empty());
    assert(run(st, seq![c].drop_last()) == (st, Seq::<Response>::empty()));
    assert(Seq::<Response>::empty() + step(st, c).1 =~= step(st, c).1);
}

/// What follows an escape and is none of the replies that are known.
pub open spec fn garbage(g: Seq<char>) -> bool {
    &&& !g.contains('\x1b')
    &&& !"["@.is_prefix_of(g)
    &&& !"]"@.is_prefix_of(g)
    &&& !"_Gi=31;"@.is_prefix_of(g)
    &&& !"_Gi=32;"@.is_prefix_of(g)
    &&& !"_Gi=33;"@.is_prefix_of(g)
}

proof fn lemma_garbage_unknown(g: Seq<char>, n: int)
    requires
        garbage(g),
        0 <= n <= g.len(),
    ensures
        run(fresh(), g.take(n)) == (
            ParserState { data: g.take(n), sequence: ResponseParseState::Unknown },
            Seq::<Response>::empty(),
        ),
    decreases n,
{
    reveal_strlit("[");
    reveal_strlit("]");
    reveal_strlit("_Gi=31");
    reveal_strlit("_Gi=32");
    reveal_strlit("_Gi=33");
    reveal_strlit("_Gi=31;");
    reveal_strlit("_Gi=32;");
    reveal_strlit("_Gi=33;");
    if n == 0 {
        assert(g.take(0) =~= Seq::empty());
    } else {
        lemma_garbage_unknown(g, n - 1);
        assert(g.take(n).drop_last() =~= g.take(n - 1));
        let data = g.take(n - 1);
        let next = g[n - 1];
        assert(g.contains(next));
        assert(identify(data, next) is Unknown) by {
            if next == ';' {
                if data == "_Gi=31"@ {
                    assert("_Gi=31;"@ =~= g.take(n));
                    assert("_Gi=31;"@.is_prefix_of(g));
                }
                if data == "_Gi=32"@ {
                    assert("_Gi=32;"@ =~= g.take(n));
                    assert("_Gi=32;"@.is_prefix_of(g));
                }
                if data == "_Gi=33"@ {
                    assert("_Gi=33;"@ =~= g.take(n));
                    assert("_Gi=33;"@.is_prefix_of(g));
                }
            }
            if data == "["@ {
                assert("["@.is_prefix_of(g));
            }
            if data == "]"@ {
                assert("]"@.is_prefix_of(g));
            }
        }
        assert(data.push(next) =~= g.take(n));
    }
}

/// Garbage between two escapes is read as if it were not there.
pub proof fn garbage_is_skipped(st: ParserState, g: Seq<char>, rest: Seq<char>)
    requires
        interruptible(st),
        garbage(g),
    ensures
        run(st, seq!['\x1b'] + g + seq!['\x1b'] + rest) == run(st, seq!['\x1b'] + rest),
        run(fresh(), g + seq!['\x1b'] + rest) == run(fresh(), rest),
{
    let esc = seq!['\x1b'];
    let none = Seq::<Response>::empty();
    escape_starts_anew(st);
    lemma_run_one(st, '\x1b');
    lemma_garbage_unknown(g, g.len() as int);
    assert(g.take(g.len() as int) =~= g);
    let lost = ParserState { data: g, sequence: ResponseParseState::Unknown };
    escape_starts_anew(lost);
    lemma_run_one(lost, '\x1b');
    reading_in_parts(fresh(), g, esc);
    reading_in_parts(fresh(), g + esc, rest);
    assert(none + none =~= none);
    assert(none + run(fresh(), rest).1 =~= run(fresh(), rest).1);
    reading_in_parts(st, esc, rest);
    assert(esc + g + esc + rest =~= esc + (g + esc + rest));
    reading_in_parts(st, esc, g + esc + rest);
}

/// All characters of `s` belong to the parameters of a control sequence.
pub open spec fn parameters(s: Seq<char>) -> bool {
    forall|i: int| 0 <= i < s.len() ==> ('0' <= #[trigger] s[i] <= '9') || s[i] == ';' || s[i] == '?'
}

proof fn lemma_parameters_kept(data: Seq<char>, body: Seq<char>)
    requires
        parameters(body),
    ensures
        run(ParserState { data, sequence: ResponseParseState::CSIResponse }, body) == (
            ParserState { data: data + body, sequence: ResponseParseState::CSIResponse },
            Seq::<Response>::empty(),
        ),
    decreases body.len(),
{
    let none = Seq::<Response>::empty();
    if body.len() == 0 {
        assert(data + body =~= data);
    } else {
        let init = body.drop_last();
        assert forall|i: int| 0 <= i < init.len() implies ('0' <= #[trigger] init[i] <= '9')
            || init[i] == ';' || init[i] == '?' by {
            assert(init[i] == body[i]);
        }
        lemma_parameters_kept(data, init);
        assert((data + init).push(body.last()) =~= data + body);
        assert(body[body.len() - 1] == body.last());
        assert(none + none =~= none);
    }
}

/// A control sequence with parameters means what its final character makes of them.
pub proof fn control_sequence(st: ParserState, params: Seq<char>, last: char)
    requires
        interruptible(st),
        params.len() >= 1,
        parameters(params),
    ensures
        run(st, seq!['\x1b', '['] + params + seq![last]) == step_csi(
            ParserState {
                data: seq!['['] + params,
                sequence: ResponseParseState::CSIResponse,
            },
            last,
        ),
{
    reveal_strlit("[");
    reveal_strlit("_Gi=31");
    reveal_strlit("_Gi=32");
    reveal_strlit("_Gi=33");
    let none = Seq::<Response>::empty();
    let esc = seq!['\x1b'];
    escape_starts_anew(st);
    lemma_run_one(st, '\x1b');
    let bracket = ParserState { data: seq!['['], sequence: ResponseParseState::Unknown };
    lemma_run_one(fresh(), '[');
    reveal_strlit("]");
    assert(identify(Seq::empty(), '[') is Unknown);
    assert(Seq::<char>::empty().push('[') =~= seq!['[']);
    assert(step(fresh(), '[') == (bracket, none));
    reading_in_parts(st, esc, seq!['[']);
    assert(none + none =~= none);
    assert(seq!['\x1b', '['] =~= esc + seq!['[']);
    assert(run(st, seq!['\x1b', '[']) == (bracket, none));
    let first = params[0];
    let begun = ParserState {
        data: seq!['[', first],
        sequence: ResponseParseState::CSIResponse,
    };
    lemma_run_one(bracket, first);
    assert("["@ =~= seq!['[']);
    assert(seq!['['].push(first) =~= seq!['[', first]);
    assert(step(bracket, first) == (begun, none));
    let others = params.skip(1);
    assert(params =~= seq![first] + others);
    assert forall|i: int| 0 <= i < others.len() implies ('0' <= #[trigger] others[i] <= '9')
        || others[i] == ';' || others[i] == '?' by {
        assert(others[i] == params[i + 1]);
    }
    lemma_parameters_kept(begun.data, others);
    reading_in_parts(bracket, seq![first], others);
    let full = ParserState {
        data: seq!['['] + params,
        sequence: ResponseParseState::CSIResponse,
    };
    assert(begun.data + others =~= seq!['['] + params);
    assert(run(bracket, params) == (full, none));
    reading_in_parts(st, seq!['\x1b', '['], params);
    let input = seq!['\x1b', '['] + params;
    assert(run(st, input) == (full, none));
    lemma_run_one(full, last);
    reading_in_parts(st, input, seq![last]);
    assert(none + step(full, last).1 =~= step(full, last).1);
}

proof fn lemma_decimal_parameters(n: nat)
    ensures
        decimal(n).len() >= 1,
        parameters(decimal(n)),
        !decimal(n).contains(';'),
{
    lemma_decimal_digits(n);
    assert forall|i: int| 0 <= i < decimal(n).len() implies decimal(n)[i] != ';' by {}
}

/// A status report is read as such.
pub proof fn status_report(st: ParserState)
    requires
        interruptible(st),
    ensures
        run(st, "\x1b[0n"@) == (fresh(), seq![Response::Status]),
{
    reveal_strlit("\x1b[0n");
    reveal_strlit("[0");
    let params = seq!['0'];
    control_sequence(st, params, 'n');
    assert("\x1b[0n"@ =~= seq!['\x1b', '['] + params + seq!['n']);
    assert(seq!['['] + params =~= "[0"@);
}

/// A report of the size of a cell, height before width, gives that size, unless one of the two is
/// zero.
pub proof fn cell_size_report(st: ParserState, height: u16, width: u16)
    requires
        interruptible(st),
    ensures
        run(
            st,
            "\x1b[6;"@ + decimal(height as nat) + ";"@ + decimal(width as nat) + "t"@,
        ) == (
            fresh(),
            seq![
                Response::CellSize(
                    if width > 0 && height > 0 {
                        Some((width, height))
                    } else {
                        None
                    },
                ),
            ],
        ),
{
    reveal_strlit("\x1b[6;");
    reveal_strlit(";");
    reveal_strlit("t");
    reveal_strlit("[0");
    let h = decimal(height as nat);
    let w = decimal(width as nat);
    lemma_decimal_parameters(height as nat);
    lemma_decimal_parameters(width as nat);
    lemma_u16_of_decimal(height);
    lemma_u16_of_decimal(width);
    let params = seq!['6', ';'] + h + seq![';'] + w;
    control_sequence(st, params, 't');
    assert("\x1b[6;"@ + h + ";"@ + w + "t"@ =~= seq!['\x1b', '['] + params + seq!['t']);
    let data = seq!['['] + params;
    let head = seq!['[', '6'];
    assert(data =~= head.push(';') + (h.push(';') + w));
    lemma_split_concat(head, h.push(';') + w, ';');
    lemma_split_concat(h, w, ';');
    assert forall|i: int| 0 <= i < head.len() implies head[i] != ';' by {}
    lemma_split_none(head, ';');
    lemma_split_none(h, ';');
    lemma_split_none(w, ';');
    assert(split(data, ';') =~= seq![head, h, w]);
}

/// A cursor position report, row before column, gives that column and row.
pub proof fn cursor_position_report(st: ParserState, row: u16, column: u16)
    requires
        interruptible(st),
    ensures
        run(st, "\x1b["@ + decimal(row as nat) + ";"@ + decimal(column as nat) + "R"@) == (
            fresh(),
            seq![Response::CursorPositionReport(column, row)],
        ),
{
    reveal_strlit("\x1b[");
    reveal_strlit(";");
    reveal_strlit("R");
    reveal_strlit("[0");
    let y = decimal(row as nat);
    let x = decimal(column as nat);
    lemma_decimal_parameters(row as nat);
    lemma_decimal_parameters(column as nat);
    lemma_u16_of_decimal(row);
    lemma_u16_of_decimal(column);
    let params = y + seq![';'] + x;
    control_sequence(st, params, 'R');
    assert("\x1b["@ + y + ";"@ + x + "R"@ =~= seq!['\x1b', '['] + params + seq!['R']);
    let data = seq!['['] + params;
    assert(data.skip(1) =~= y.push(';') + x);
    lemma_split_concat(y, x, ';');
    lemma_split_none(y, ';');
    lemma_split_none(x, ';');
    assert(split(data.skip(1), ';') =~= seq![y, x]);
}

/// Numbers in decimal, with a semicolon between each two.
pub open spec fn listing(numbers: Seq<nat>) -> Seq<char>
    decreases numbers.len(),
{
    if numbers.len() == 0 {
        Seq::empty()
    } else if numbers.len() == 1 {
        decimal(numbers[0])
    } else {
        listing(numbers.drop_last()).push(';') + decimal(numbers.last())
    }
}

/// What a device attribute stands for.
pub open spec fn attribute_of_number(n: nat) -> Option<Response> {
    if n == 4 {
        Some(Response::Sixel)
    } else if n == 28 {
        Some(Response::RectangularOps)
    } else {
        None
    }
}

proof fn lemma_attribute_of_decimal(n: nat)
    ensures
        attribute(decimal(n)) == attribute_of_number(n),
{
    reveal_strlit("4");
    reveal_strlit("28");
    lemma_decimal_value(n);
    reveal_with_fuel(decimal, 2);
    reveal_with_fuel(number_value, 3);
    assert(decimal(4) =~= "4"@);
    assert(decimal(28) =~= "28"@);
    lemma_decimal_value(4);
    lemma_decimal_value(28);
}

proof fn lemma_listing(numbers: Seq<nat>)
    requires
        numbers.len() >= 1,
    ensures
        parameters(listing(numbers)),
        split(listing(numbers), ';') == numbers.map_values(|n: nat| decimal(n)),
    decreases numbers.len(),
{
    let f = |n: nat| decimal(n);
    let last = numbers.last();
    lemma_decimal_parameters(last);
    lemma_split_none(decimal(last), ';');
    if numbers.len() == 1 {
        assert(split(listing(numbers), ';') =~= numbers.map_values(f));
    } else {
        lemma_listing(numbers.drop_last());
        lemma_split_concat(listing(numbers.drop_last()), decimal(last), ';');
        assert(split(listing(numbers), ';') =~= numbers.map_values(f));
    }
}

proof fn lemma_attributes_of_numbers(numbers: Seq<nat>)
    ensures
        numbers.map_values(|n: nat| decimal(n)).filter_map(|attr: Seq<char>| attribute(attr))
            == numbers.filter_map(|n: nat| attribute_of_number(n)),
    decreases numbers.len(),
{
    let f = |n: nat| decimal(n);
    let g = |attr: Seq<char>| attribute(attr);
    let h = |n: nat| attribute_of_number(n);
    if numbers.len() > 0 {
        lemma_attributes_of_numbers(numbers.drop_last());
        lemma_attribute_of_decimal(numbers.last());
        let texts = numbers.map_values(f);
        assert(texts.drop_last() =~= numbers.drop_last().map_values(f));
        assert(texts.filter_map(g) =~= numbers.filter_map(h));
    } else {
        assert(numbers.map_values(f) =~= Seq::empty());
    }
}

/// A device attributes report gives a response for each attribute that is known, in order.
pub proof fn device_attributes_report(st: ParserState, numbers: Seq<nat>)
    requires
        interruptible(st),
        numbers.len() >= 1,
    ensures
        run(st, "\x1b[?"@ + listing(numbers) + "c"@) == (
            fresh(),
            numbers.filter_map(|n: nat| attribute_of_number(n)),
        ),
{
    reveal_strlit("\x1b[?");
    reveal_strlit("c");
    reveal_strlit("[0");
    reveal_strlit("[?");
    let list = listing(numbers);
    lemma_listing(numbers);
    lemma_attributes_of_numbers(numbers);
    let params = seq!['?'] + list;
    control_sequence(st, params, 'c');
    assert("\x1b[?"@ + list + "c"@ =~= seq!['\x1b', '['] + params + seq!['c']);
    let data = seq!['['] + params;
    assert("[?"@ =~= data.take(2));
    assert("[?"@.is_prefix_of(data));
    assert(data.skip(2) =~= list);
}

/// A reply to the probe whose image id ends in `probe`.
pub open spec fn probe_reply(probe: char, payload: Seq<char>) -> Seq<char> {
    "\x1b_Gi=3"@.push(probe).push(';') + payload + "\\"@
}

/// What the probe whose image id ends in `probe` asks for.
pub open spec fn probed(probe: char) -> Response {
    if probe == '1' {
        Response::Kitty
    } else if probe == '2' {
        Response::KittyCompression
    } else {
        Response::KittySharedMemory
    }
}

proof fn lemma_kitty_kept(data: Seq<char>, payload: Seq<char>)
    requires
        !payload.contains('\\'),
    ensures
        run(ParserState { data, sequence: ResponseParseState::KittyResponse }, payload) == (
            ParserState { data: data + payload, sequence: ResponseParseState::KittyResponse },
            Seq::<Response>::empty(),
        ),
    decreases payload.len(),
{
    let none = Seq::<Response>::empty();
    if payload.len() == 0 {
        assert(data + payload =~= data);
    } else {
        let init = payload.drop_last();
        assert forall|i: int| 0 <= i < init.len() implies init[i] != '\\' by {
            assert(payload.contains(payload[i]));
        }
        lemma_kitty_kept(data, init);
        assert(payload.contains(payload.last()));
        assert((data + init).push(payload.last()) =~= data + payload);
        assert(none + none =~= none);
    }
}

/// How a reply to a probe begins, behind the escape.
spec fn probe_head(probe: char) -> Seq<char> {
    seq!['_', 'G', 'i', '=', '3', probe]
}

proof fn lemma_probe_named(probe: char)
    requires
        probe == '1' || probe == '2' || probe == '3',
    ensures
        run(fresh(), probe_head(probe).push(';')) == (
            ParserState {
                data: probe_head(probe).push(';'),
                sequence: ResponseParseState::KittyResponse,
            },
            Seq::<Response>::empty(),
        ),
{
    reveal_strlit("[");
    reveal_strlit("]");
    reveal_strlit("_Gi=31");
    reveal_strlit("_Gi=32");
    reveal_strlit("_Gi=33");
    reveal_strlit("_Gi=31;");
    reveal_strlit("_Gi=32;");
    reveal_strlit("_Gi=33;");
    let none = Seq::<Response>::empty();
    let id = probe_head(probe);
    assert forall|i: int| 0 <= i < id.len() implies id[i] != '\x1b' by {}
    assert(!"["@.is_prefix_of(id) && !"]"@.is_prefix_of(id)) by {
        assert(id.subrange(0, 1)[0] == '_');
        assert("["@[0] == '[');
        assert("]"@[0] == ']');
    }
    lemma_garbage_unknown(id, 6);
    assert(id.take(6) =~= id);
    if probe == '1' {
        assert(id =~= "_Gi=31"@);
    } else if probe == '2' {
        assert(id =~= "_Gi=32"@);
    } else {
        assert(id =~= "_Gi=33"@);
    }
    assert(id.push(';').drop_last() =~= id);
    assert(none + none =~= none);
}

proof fn lemma_kitty_reply(probe: char, payload: Seq<char>)
    requires
        probe == '1' || probe == '2' || probe == '3',
    ensures
        kitty_reply(probe_head(probe).push(';') + payload) == (if payload == "OK\x1b"@ {
            seq![probed(probe)]
        } else {
            Seq::empty()
        }),
{
    reveal_strlit("OK\x1b");
    reveal_strlit("_Gi=31;OK\x1b");
    reveal_strlit("_Gi=32;OK\x1b");
    reveal_strlit("_Gi=33;OK\x1b");
    let data = probe_head(probe).push(';') + payload;
    assert(data[5] == probe);
    assert("_Gi=31;OK\x1b"@[5] == '1');
    assert("_Gi=32;OK\x1b"@[5] == '2');
    assert("_Gi=33;OK\x1b"@[5] == '3');
    assert(data.skip(7) =~= payload);
    if payload == "OK\x1b"@ {
        if probe == '1' {
            assert(data =~= "_Gi=31;OK\x1b"@);
        } else if probe == '2' {
            assert(data =~= "_Gi=32;OK\x1b"@);
        } else {
            assert(data =~= "_Gi=33;OK\x1b"@);
        }
    } else {
        assert("_Gi=31;OK\x1b"@.skip(7) =~= "OK\x1b"@);
        assert("_Gi=32;OK\x1b"@.skip(7) =~= "OK\x1b"@);
        assert("_Gi=33;OK\x1b"@.skip(7) =~= "OK\x1b"@);
    }
}

/// A probe is answered with `OK` or refused: the capability is reported where the answer is `OK`
/// and nothing is reported for any other answer.
pub proof fn probe_answered_or_refused(st: ParserState, probe: char, payload: Seq<char>)
    requires
        interruptible(st),
        probe == '1' || probe == '2' || probe == '3',
        !payload.contains('\\'),
    ensures
        run(st, probe_reply(probe, payload)) == (
            fresh(),
            if payload == "OK\x1b"@ {
                seq![probed(probe)]
            } else {
                Seq::empty()
            },
        ),
{
    let none = Seq::<Response>::empty();
    assert(none + none =~= none);
    let head = probe_head(probe).push(';');
    escape_starts_anew(st);
    lemma_run_one(st, '\x1b');
    lemma_probe_named(probe);
    reading_in_parts(st, seq!['\x1b'], head);
    lemma_kitty_kept(head, payload);
    reading_in_parts(st, seq!['\x1b'] + head, payload);
    let full = ParserState {
        data: head + payload,
        sequence: ResponseParseState::KittyResponse,
    };
    let input = seq!['\x1b'] + head + payload;
    assert(run(st, input) == (full, none));
    lemma_run_one(full, '\\');
    reading_in_parts(st, input, seq!['\\']);
    lemma_kitty_reply(probe, payload);
    assert(none + step(full, '\\').1 =~= step(full, '\\').1);
    assert(probe_reply(probe, payload) =~= input + seq!['\\']) by {
        reveal_strlit("\x1b_Gi=3");
        reveal_strlit("\\");
    }
}

/// A hexadecimal digit.
pub open spec fn hex_digit(c: char) -> bool {
    '0' <= c <= '9' || 'a' <= c <= 'f' || 'A' <= c <= 'F'
}

/// A number of up to 16 bits, in one to four hexadecimal digits.
pub open spec fn hex_number(s: Seq<char>) -> bool {
    1 <= s.len() <= 4 && forall|i: int| 0 <= i < s.len() ==> hex_digit(#[trigger] s[i])
}

proof fn lemma_hex_value(s: Seq<char>)
    requires
        hex_number(s),
    ensures
        u16_value(s, 16) == Some((number_value(s, 16)->0) as u16),
        0 <= number_value(s, 16)->0 <= 0xffff,
{
    reveal_with_fuel(number_value, 5);
    assert(hex_digit(s[0]));
    assert(s.len() > 1 ==> hex_digit(s[1]));
    assert(s.len() > 2 ==> hex_digit(s[2]));
    assert(s.len() > 3 ==> hex_digit(s[3]));
}

proof fn lemma_osc_kept(data: Seq<char>, body: Seq<char>)
    requires
        !body.contains('\x07'),
        !body.contains('\\'),
    ensures
        run(ParserState { data, sequence: ResponseParseState::OSCResponse }, body) == (
            ParserState { data: data + body, sequence: ResponseParseState::OSCResponse },
            Seq::<Response>::empty(),
        ),
    decreases body.len(),
{
    let none = Seq::<Response>::empty();
    if body.len() == 0 {
        assert(data + body =~= data);
    } else {
        reveal_strlit("\x1b\\");
        let init = body.drop_last();
        assert forall|i: int| 0 <= i < init.len() implies init[i] != '\\' && init[i] != '\x07' by {
            assert(body.contains(body[i]));
        }
        lemma_osc_kept(data, init);
        assert(body.contains(body.last()));
        let now = (data + init).push(body.last());
        assert(now =~= data + body);
        assert(!"\x1b\\"@.is_suffix_of(now)) by {
            if "\x1b\\"@.is_suffix_of(now) {
                assert(now.subrange(now.len() - 2, now.len() as int)[1] == '\\');
            }
        }
        assert(none + none =~= none);
    }
}

/// What ends an operating system command: a bell, or `ESC \`.
pub open spec fn terminator(end: Seq<char>) -> bool {
    end == "\x07"@ || end == "\x1b\\"@
}

/// An operating system command gives the background color that it holds, if it holds one.
pub proof fn operating_system_command(st: ParserState, body: Seq<char>, end: Seq<char>)
    requires
        interruptible(st),
        body.len() >= 1,
        !body.contains('\x07'),
        !body.contains('\\'),
        !body.contains('\x1b'),
        terminator(end),
    ensures
        run(st, "\x1b]"@ + body + end) == (
            fresh(),
            at_most_one(
                match background("]"@ + body + end) {
                    Some((r, g, b)) => Some(Response::Background(r, g, b)),
                    None => None,
                },
            ),
        ),
{
    reveal_strlit("\x1b]");
    reveal_strlit("]");
    reveal_strlit("[");
    reveal_strlit("\x07");
    reveal_strlit("\x1b\\");
    reveal_strlit("_Gi=31");
    reveal_strlit("_Gi=32");
    reveal_strlit("_Gi=33");
    let none = Seq::<Response>::empty();
    assert(none + none =~= none);
    let esc = seq!['\x1b'];
    escape_starts_anew(st);
    lemma_run_one(st, '\x1b');
    let bracket = ParserState { data: seq![']'], sequence: ResponseParseState::Unknown };
    lemma_run_one(fresh(), ']');
    assert(Seq::<char>::empty().push(']') =~= seq![']']);
    assert(step(fresh(), ']') == (bracket, none));
    reading_in_parts(st, esc, seq![']']);
    assert("\x1b]"@ =~= esc + seq![']']);
    let first = body[0];
    assert(body.contains(first));
    let begun = ParserState { data: seq![']', first], sequence: ResponseParseState::OSCResponse };
    lemma_run_one(bracket, first);
    assert("]"@ =~= seq![']']);
    assert(seq![']'].push(first) =~= seq![']', first]);
    assert(step(bracket, first) == (begun, none));
    let others = body.skip(1);
    assert(body =~= seq![first] + others);
    // All but the last character of the terminator is kept.
    let held = others + end.drop_last();
    assert forall|i: int| 0 <= i < held.len() implies held[i] != '\x07' && held[i] != '\\' by {
        if i < others.len() {
            assert(body.contains(body[i + 1]));
        }
    }
    lemma_osc_kept(begun.data, held);
    let full = ParserState {
        data: "]"@ + body + end.drop_last(),
        sequence: ResponseParseState::OSCResponse,
    };
    assert(begun.data + held =~= full.data);
    reading_in_parts(bracket, seq![first], held);
    let input = "\x1b]"@ + (seq![first] + held);
    reading_in_parts(st, "\x1b]"@, seq![first] + held);
    assert(run(st, input) == (full, none));
    lemma_run_one(full, end.last());
    reading_in_parts(st, input, seq![end.last()]);
    assert("\x1b]"@ + body + end =~= input + seq![end.last()]);
    assert(full.data.push(end.last()) =~= "]"@ + body + end);
    assert(end.last() == '\x07' || "\x1b\\"@.is_suffix_of("]"@ + body + end)) by {
        if end == "\x1b\\"@ {
            let all = "]"@ + body + end;
            assert(all.subrange(all.len() - 2, all.len() as int) =~= end);
        }
    }
    assert(none + step(full, end.last()).1 =~= step(full, end.last()).1);
}

/// Three parts of a color as the terminal writes them.
pub open spec fn color_text(r: Seq<char>, g: Seq<char>, b: Seq<char>) -> Seq<char> {
    r + "/"@ + g + "/"@ + b
}

proof fn lemma_color_parts(r: Seq<char>, g: Seq<char>, b: Seq<char>)
    requires
        hex_number(r),
        hex_number(g),
        hex_number(b),
    ensures
        split(color_text(r, g, b), '/') == seq![r, g, b],
        forall|i: int|
            0 <= i < color_text(r, g, b).len() ==> hex_digit(#[trigger] color_text(r, g, b)[i])
                || color_text(r, g, b)[i] == '/',
        hex_digit(color_text(r, g, b)[0]),
        hex_digit(color_text(r, g, b).last()),
{
    reveal_strlit("/");
    let c = color_text(r, g, b);
    assert(c =~= r.push('/') + (g.push('/') + b));
    lemma_split_concat(r, g.push('/') + b, '/');
    lemma_split_concat(g, b, '/');
    lemma_split_none(r, '/');
    lemma_split_none(g, '/');
    lemma_split_none(b, '/');
    assert(split(c, '/') =~= seq![r, g, b]);
    assert forall|i: int| 0 <= i < c.len() implies hex_digit(#[trigger] c[i]) || c[i] == '/' by {
        if i < r.len() {
            assert(c[i] == r[i]);
        } else if r.len() < i && i <= r.len() + g.len() {
            assert(c[i] == g[i - r.len() - 1]);
        } else if r.len() + g.len() + 1 < i {
            assert(c[i] == b[i - r.len() - g.len() - 2]);
        }
    }
    assert(c[0] == r[0]);
    assert(c.last() == b[b.len() - 1]);
}

proof fn lemma_color_isolated(color: Seq<char>, end: Seq<char>)
    requires
        color.len() >= 1,
        forall|i: int| 0 <= i < color.len() ==> hex_digit(#[trigger] color[i]) || color[i] == '/',
        hex_digit(color[0]),
        hex_digit(color.last()),
        terminator(end),
    ensures
        after_first("]11;rgb:"@ + color + end, "rgb:"@) == Some(color + end),
        trim_end(trim_start(color + end, "\x07\x1b\\"@), "\x07\x1b\\"@) == color,
{
    reveal_strlit("]11;rgb:");
    reveal_strlit("rgb:");
    reveal_strlit("\x07");
    reveal_strlit("\x1b\\");
    reveal_strlit("\x07\x1b\\");
    let report = "]11;rgb:"@ + color + end;
    let mark = "rgb:"@;
    let rest = color + end;
    assert(report.subrange(4, 8) =~= mark);
    assert forall|j: int| occurs_at(report, mark, j) implies 4 <= j by {
        assert(report.subrange(j, j + 4)[0] == 'r');
    }
    assert(is_first(report, mark, 4));
    lemma_is_first(report, mark, 4);
    assert(report.skip(8) =~= rest);
    assert forall|j: int| !occurs_at(rest, mark, j) by {
        if occurs_at(rest, mark, j) {
            assert(rest.subrange(j, j + 4)[3] == ':');
            assert(rest[j + 3] == ':');
            if j + 3 < color.len() {
                assert(rest[j + 3] == color[j + 3]);
            }
        }
    }
    let set = "\x07\x1b\\"@;
    assert(set[0] == '\x07' && set[1] == '\x1b' && set[2] == '\\');
    assert(set.contains('\x07') && set.contains('\x1b') && set.contains('\\'));
    assert(!set.contains(color[0]));
    assert(!set.contains(color.last()));
    assert(rest[0] == color[0]);
    assert(trim_start(rest, set) == rest);
    assert(trim_end(color, set) == color);
    let one = rest.drop_last();
    assert(rest.last() == end.last());
    if end == "\x07"@ {
        assert(one =~= color);
    } else {
        assert(one.last() == '\x1b');
        assert(one.drop_last() =~= color);
        assert(trim_end(one, set) == color);
    }
}

/// A report of the background color gives that color, each part scaled from 16 bits to the upper
/// eight of them.
pub proof fn background_report(
    st: ParserState,
    r: Seq<char>,
    g: Seq<char>,
    b: Seq<char>,
    end: Seq<char>,
)
    requires
        interruptible(st),
        hex_number(r),
        hex_number(g),
        hex_number(b),
        terminator(end),
    ensures
        run(st, "\x1b]11;rgb:"@ + color_text(r, g, b) + end) == (
            fresh(),
            seq![
                Response::Background(
                    (number_value(r, 16)->0 / 256) as u8,
                    (number_value(g, 16)->0 / 256) as u8,
                    (number_value(b, 16)->0 / 256) as u8,
                ),
            ],
        ),
{
    reveal_strlit("\x1b]11;rgb:");
    reveal_strlit("\x1b]");
    reveal_strlit("]11;rgb:");
    reveal_strlit("]");
    let color = color_text(r, g, b);
    lemma_color_parts(r, g, b);
    lemma_color_isolated(color, end);
    lemma_hex_value(r);
    lemma_hex_value(g);
    lemma_hex_value(b);
    let body = seq!['1', '1', ';', 'r', 'g', 'b', ':'] + color;
    assert forall|i: int| 0 <= i < body.len() implies body[i] != '\x07' && body[i] != '\\'
        && body[i] != '\x1b' by {
        if i >= 7 {
            assert(body[i] == color[i - 7]);
        }
    }
    operating_system_command(st, body, end);
    assert("\x1b]"@ + body + end =~= "\x1b]11;rgb:"@ + color + end);
    assert("]"@ + body + end =~= "]11;rgb:"@ + color + end);
}

} // verus!
