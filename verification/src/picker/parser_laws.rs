//! What each character does to a parser, by what it has read before.
use vstd::prelude::*;

use crate::picker::cap_parser::{
    attribute, cell_size, cursor_position, device_attributes, fresh, step, ParserState, Response,
    ResponseParseState,
};
use crate::picker::session::characters;
use crate::text::{
    after_first, lemma_split_concat, lemma_split_none, split, trim_end, trim_start, u16_value,
};

verus! {

/// A reply is known by what it starts with: a bracket, another one, or the id of one of the three
/// probes and a semicolon. Until then its characters are kept, and an escape drops them.
pub proof fn replies_are_known_by_their_start(data: Seq<char>, next: char)
    ensures
        ({
            let st = ParserState { data, sequence: ResponseParseState::Unknown };
            let after = step(st, next);
            let probe = data == "_Gi=31"@ || data == "_Gi=32"@ || data == "_Gi=33"@;
            &&& after.1.len() == 0
            &&& next == '\x1b' ==> after.0.data.len() == 0 && after.0.sequence
                == ResponseParseState::Unknown
            &&& next != '\x1b' ==> {
                &&& after.0.data == data.push(next)
                &&& data == "["@ ==> after.0.sequence == ResponseParseState::CSIResponse
                &&& data == "]"@ ==> after.0.sequence == ResponseParseState::OSCResponse
                &&& probe && next == ';' ==> after.0.sequence == ResponseParseState::KittyResponse
                &&& data != "["@ && data != "]"@ && !(probe && next == ';') ==> after.0.sequence
                    == ResponseParseState::Unknown
            }
        }),
{
    reveal_strlit("[");
    reveal_strlit("]");
    reveal_strlit("_Gi=31");
    reveal_strlit("_Gi=32");
    reveal_strlit("_Gi=33");
    assert("["@[0] == '[' && "]"@[0] == ']');
    assert("["@.len() == 1 && "]"@.len() == 1);
    assert("_Gi=31"@.len() == 6 && "_Gi=32"@.len() == 6 && "_Gi=33"@.len() == 6);
}

/// A control sequence is kept until a character that ends it, and an escape drops it. It ends with
/// `t` and with `R`, with `c` where a question mark began it, and with `n` where a zero is all of
/// it, which is the status.
pub proof fn control_sequences_end(data: Seq<char>, next: char)
    ensures
        ({
            let st = ParserState { data, sequence: ResponseParseState::CSIResponse };
            let after = step(st, next);
            let status = data == "[0"@ && next == 'n';
            let attributes = next == 'c' && "[?"@.is_prefix_of(data);
            let ends = status || attributes || next == 't' || next == 'R' || next == '\x1b';
            &&& status ==> after.1 == seq![Response::Status]
            &&& next == '\x1b' ==> after.1.len() == 0
            &&& ends ==> after.0.data.len() == 0 && after.0.sequence == ResponseParseState::Unknown
            &&& !ends ==> after.1.len() == 0 && after.0.data == data.push(next)
                && after.0.sequence == ResponseParseState::CSIResponse
        }),
{
}

/// Of the device attributes, which semicolons part, a four is sixel and a 28 is rectangular
/// operations, in the order in which they stand. All others mean nothing.
pub proof fn attributes_are_listed(list: Seq<char>)
    ensures
        ({
            let st = ParserState {
                data: "[?"@ + list,
                sequence: ResponseParseState::CSIResponse,
            };
            step(st, 'c').1 == split(list, ';').filter_map(
                |attr: Seq<char>|
                    if attr == "4"@ {
                        Some(Response::Sixel)
                    } else if attr == "28"@ {
                        Some(Response::RectangularOps)
                    } else {
                        None
                    },
            )
        }),
{
    reveal_strlit("[?");
    reveal_strlit("[0");
    let data = "[?"@ + list;
    assert(data.subrange(0, 2) =~= "[?"@);
    assert(data.skip(2) =~= list);
    let f = |attr: Seq<char>| attribute(attr);
    let g = |attr: Seq<char>|
        if attr == "4"@ {
            Some(Response::Sixel)
        } else if attr == "28"@ {
            Some(Response::RectangularOps)
        } else {
            None
        };
    assert(f =~= g);
    assert(step(
        ParserState { data, sequence: ResponseParseState::CSIResponse },
        'c',
    ).1 == device_attributes(list));
}

/// A report of the size of a cell has three fields, the height before the width. Where both are
/// numbers above zero they are the size, width first, and otherwise there is none.
pub proof fn cell_sizes_have_three_fields(a: Seq<char>, height: Seq<char>, width: Seq<char>)
    requires
        !a.contains(';'),
        !height.contains(';'),
        !width.contains(';'),
    ensures
        ({
            let st = ParserState {
                data: a.push(';') + height.push(';') + width,
                sequence: ResponseParseState::CSIResponse,
            };
            let h = u16_value(height, 10);
            let w = u16_value(width, 10);
            &&& h is Some && w is Some && h->0 > 0 && w->0 > 0 ==> step(st, 't').1 == seq![
                Response::CellSize(Some((w->0, h->0))),
            ]
            &&& h is None || w is None || h->0 == 0 || w->0 == 0 ==> step(st, 't').1 == seq![
                Response::CellSize(None),
            ]
        }),
{
    let data = a.push(';') + height.push(';') + width;
    lemma_split_none(a, ';');
    lemma_split_none(height, ';');
    lemma_split_none(width, ';');
    lemma_split_concat(height, width, ';');
    lemma_split_concat(a, height.push(';') + width, ';');
    assert(data =~= a.push(';') + (height.push(';') + width));
    assert(split(data, ';') =~= seq![a, height, width]);
}

/// A report of the size of a cell that has not three fields tells no size.
pub proof fn cell_sizes_of_other_fields(data: Seq<char>)
    requires
        split(data, ';').len() != 3,
    ensures
        step(ParserState { data, sequence: ResponseParseState::CSIResponse }, 't').1 == seq![
            Response::CellSize(None),
        ],
{
    assert(cell_size(data) is None);
}

/// A report of the cursor has two fields behind the bracket, the row before the column. Where both
/// are numbers they are the position, column first, and otherwise nothing is reported.
pub proof fn cursor_positions_have_two_fields(row: Seq<char>, column: Seq<char>)
    requires
        !row.contains(';'),
        !column.contains(';'),
    ensures
        ({
            let st = ParserState {
                data: seq!['['] + row.push(';') + column,
                sequence: ResponseParseState::CSIResponse,
            };
            let y = u16_value(row, 10);
            let x = u16_value(column, 10);
            &&& x is Some && y is Some ==> step(st, 'R').1 == seq![
                Response::CursorPositionReport(x->0, y->0),
            ]
            &&& x is None || y is None ==> step(st, 'R').1.len() == 0
        }),
{
    let data = seq!['['] + row.push(';') + column;
    lemma_split_none(row, ';');
    lemma_split_none(column, ';');
    lemma_split_concat(row, column, ';');
    assert(data.skip(1) =~= row.push(';') + column);
    assert(split(data.skip(1), ';') =~= seq![row, column]);
}

/// A report of the cursor that has not two fields behind the bracket reports nothing.
pub proof fn cursor_positions_of_other_fields(fields: Seq<char>)
    requires
        split(fields, ';').len() != 2,
    ensures
        step(
            ParserState { data: seq!['['] + fields, sequence: ResponseParseState::CSIResponse },
            'R',
        ).1.len() == 0,
{
    assert((seq!['['] + fields).skip(1) =~= fields);
    assert(cursor_position(fields) is None);
}

/// An operating system command is kept until a bell, or until a backslash behind an escape. Nothing
/// else ends it, not even an escape.
pub proof fn commands_end(data: Seq<char>, next: char)
    ensures
        ({
            let after = step(
                ParserState { data, sequence: ResponseParseState::OSCResponse },
                next,
            );
            let ends = next == '\x07' || next == '\\' && data.len() > 0 && data.last() == '\x1b';
            &&& ends ==> after.0.data.len() == 0 && after.0.sequence == ResponseParseState::Unknown
                && after.1.len() <= 1
            &&& !ends ==> after.1.len() == 0 && after.0.data == data.push(next)
                && after.0.sequence == ResponseParseState::OSCResponse
        }),
{
    reveal_strlit("\x1b\\");
    let all = data.push(next);
    let end = "\x1b\\"@;
    assert(end.len() == 2 && end[0] == '\x1b' && end[1] == '\\');
    if data.len() > 0 {
        assert(all.subrange(all.len() - 2, all.len() as int) =~= seq![data.last(), next]);
        assert(end =~= seq!['\x1b', '\\']);
        if end.is_suffix_of(all) {
            assert(seq![data.last(), next][0] == end[0]);
            assert(seq![data.last(), next][1] == end[1]);
        }
    }
}

/// What ends a command reports the color behind its first `rgb:`, without the bells, escapes and
/// backslashes around it, where it is three hexadecimal numbers of 16 bits between slashes: the
/// upper eight bits of each. Otherwise it reports nothing.
pub proof fn commands_report_a_color(data: Seq<char>, next: char, color: Seq<char>)
    requires
        next == '\x07' || next == '\\' && data.len() > 0 && data.last() == '\x1b',
    ensures
        ({
            let responses = step(
                ParserState { data, sequence: ResponseParseState::OSCResponse },
                next,
            ).1;
            let marked = after_first(data.push(next), "rgb:"@);
            let set = "\x07\x1b\\"@;
            let parts = split(color, '/');
            let colored = marked is Some && trim_end(trim_start(marked->0, set), set) == color;
            let valid = parts.len() == 3 && u16_value(parts[0], 16) is Some && u16_value(
                parts[1],
                16,
            ) is Some && u16_value(parts[2], 16) is Some;
            &&& marked is None ==> responses.len() == 0
            &&& colored && !valid ==> responses.len() == 0
            &&& colored && valid ==> responses == seq![
                Response::Background(
                    (u16_value(parts[0], 16)->0 / 256) as u8,
                    (u16_value(parts[1], 16)->0 / 256) as u8,
                    (u16_value(parts[2], 16)->0 / 256) as u8,
                ),
            ]
        }),
{
    reveal_strlit("\x1b\\");
    let all = data.push(next);
    if next == '\\' {
        assert(all.subrange(all.len() - 2, all.len() as int) =~= "\x1b\\"@);
    }
}

/// A reply to a probe is kept until a backslash. It reports the capability that was probed for where
/// it is `OK` and an escape, and nothing otherwise.
pub proof fn probe_replies_end(data: Seq<char>, next: char)
    ensures
        ({
            let after = step(
                ParserState { data, sequence: ResponseParseState::KittyResponse },
                next,
            );
            &&& next != '\\' ==> after.1.len() == 0 && after.0.data == data.push(next)
                && after.0.sequence == ResponseParseState::KittyResponse
            &&& next == '\\' ==> after.0.data.len() == 0 && after.0.sequence
                == ResponseParseState::Unknown
            &&& next == '\\' && data == "_Gi=31;OK\x1b"@ ==> after.1 == seq![Response::Kitty]
            &&& next == '\\' && data == "_Gi=32;OK\x1b"@ ==> after.1 == seq![
                Response::KittyCompression,
            ]
            &&& next == '\\' && data == "_Gi=33;OK\x1b"@ ==> after.1 == seq![
                Response::KittySharedMemory,
            ]
            &&& data != "_Gi=31;OK\x1b"@ && data != "_Gi=32;OK\x1b"@ && data != "_Gi=33;OK\x1b"@
                ==> after.1.len() == 0
        }),
{
    reveal_strlit("_Gi=31;OK\x1b");
    reveal_strlit("_Gi=32;OK\x1b");
    reveal_strlit("_Gi=33;OK\x1b");
    assert("_Gi=31;OK\x1b"@[5] == '1');
    assert("_Gi=32;OK\x1b"@[5] == '2');
    assert("_Gi=33;OK\x1b"@[5] == '3');
}

/// A parser starts with nothing read and nothing known.
pub proof fn parsers_start_with_nothing()
    ensures
        fresh().data.len() == 0,
        fresh().sequence == ResponseParseState::Unknown,
{
}

/// Each byte is read as the character of its number.
pub proof fn bytes_are_characters(bytes: Seq<u8>, i: int)
    requires
        0 <= i < bytes.len(),
    ensures
        characters(bytes).len() == bytes.len(),
        characters(bytes)[i] as int == bytes[i] as int,
{
}

} // verus!
