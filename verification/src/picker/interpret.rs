//! What the responses of a terminal say about it.
use vstd::prelude::*;

use crate::errors::Errors;
use crate::picker::cap_parser::Response;
use crate::picker::{Capability, ProtocolType};
use crate::types::FontSize;

verus! {

/// What a terminal's responses add up to: the best protocol, the size of a cell, and all
/// capabilities.
pub type QueryOutcome = (Option<ProtocolType>, Option<FontSize>, Vec<Capability>);

/// The capability that a response reports by itself.
pub open spec fn capability(response: Response) -> Option<Capability> {
    match response {
        Response::Kitty => Some(Capability::Kitty),
        Response::Sixel => Some(Capability::Sixel),
        Response::RectangularOps => Some(Capability::RectangularOps),
        Response::KittyCompression => Some(Capability::KittyCompression),
        Response::KittySharedMemory => Some(Capability::KittySharedMemory),
        Response::CellSize(size) => Some(Capability::CellSize(size)),
        Response::CursorPositionReport(..) => None,
        Response::Background(r, g, b) => Some(Capability::Background(r, g, b)),
        Response::Status => None,
    }
}

/// The best protocol that is reported: kitty before sixel.
pub open spec fn reported_protocol(responses: Seq<Response>) -> Option<ProtocolType> {
    if responses.contains(Response::Kitty) {
        Some(ProtocolType::Kitty)
    } else if responses.contains(Response::Sixel) {
        Some(ProtocolType::Sixel)
    } else {
        None
    }
}

/// The size of a cell that is reported last.
pub open spec fn reported_font_size(responses: Seq<Response>) -> Option<FontSize>
    decreases responses.len(),
{
    if responses.len() == 0 {
        None
    } else {
        match responses.last() {
            Response::CellSize(Some((width, height))) => Some(FontSize { width, height }),
            _ => reported_font_size(responses.drop_last()),
        }
    }
}

/// The column of a cursor position report.
pub open spec fn column(response: Response) -> Option<u16> {
    match response {
        Response::CursorPositionReport(x, _) => Some(x),
        _ => None,
    }
}

/// The columns of all cursor position reports.
pub open spec fn columns(responses: Seq<Response>) -> Seq<u16> {
    responses.filter_map(|response: Response| column(response))
}

/// The cursor was reported three times, and went on by exactly two columns each time.
pub open spec fn moved_by_two(columns: Seq<u16>) -> bool {
    columns.len() == 3 && columns[1] == columns[0] + 2 && columns[2] == columns[1] + 2
}

/// All capabilities that the responses report: those of the single responses in their order, and
/// the text sizing protocol where the cursor moved accordingly.
pub open spec fn reported_capabilities(responses: Seq<Response>) -> Seq<Capability> {
    let single = responses.filter_map(|response: Response| capability(response));
    if moved_by_two(columns(responses)) {
        single.push(Capability::TextSizingProtocol)
    } else {
        single
    }
}

/// The first of the two that is known.
pub open spec fn first_known<T>(a: Option<T>, b: Option<T>) -> Option<T> {
    match a {
        Some(v) => Some(v),
        None => b,
    }
}

/// What the responses of a terminal add up to. Where none of them tells the size of a cell,
/// `fallback` stands in for it.
pub fn interpret_parser_responses(
    responses: Vec<Response>,
    fallback: Option<FontSize>,
) -> (r: Result<QueryOutcome, Errors>)
    ensures
        responses@.len() == 0 <==> r == Err::<QueryOutcome, Errors>(Errors::NoCap),
        responses@.len() > 0 <==> r is Ok,
        r matches Ok(outcome) ==> {
            &&& outcome.0 == reported_protocol(responses@)
            &&& outcome.1 == first_known(reported_font_size(responses@), fallback)
            &&& outcome.2@ == reported_capabilities(responses@)
        },
{
    if responses.len() == 0 {
        return Err(Errors::NoCap);
    }
    let ghost all = responses@;
    let ghost f = |response: Response| capability(response);
    let ghost g = |response: Response| column(response);
    let mut capabilities: Vec<Capability> = Vec::new();
    let mut proto: Option<ProtocolType> = None;
    let mut font_size: Option<FontSize> = None;
    let mut reported: Vec<u16> = Vec::new();
    assert(all.take(0).filter_map(f) =~= Seq::empty());
    assert(all.take(0).filter_map(g) =~= Seq::empty());
    for i in 0..responses.len()
        invariant
            all == responses@,
            f == (|response: Response| capability(response)),
            g == (|response: Response| column(response)),
            capabilities@ == all.take(i as int).filter_map(f),
            reported@ == all.take(i as int).filter_map(g),
            proto == reported_protocol(all.take(i as int)),
            font_size == reported_font_size(all.take(i as int)),
    {
        let ghost seen = all.take(i as int);
        let ghost now = all.take(i + 1);
        assert(now.drop_last() =~= seen);
        assert(now =~= seen.push(all[i as int]));
        proof {
            all.lemma_filter_map_take_succ(f, i as int);
            all.lemma_filter_map_take_succ(g, i as int);
            assert forall|x: Response|
                now.contains(x) <==> seen.contains(x) || x == all[i as int] by {
                if seen.contains(x) {
                    let k = choose|k: int| 0 <= k < seen.len() && seen[k] == x;
                    assert(now[k] == x);
                }
                if x == all[i as int] {
                    assert(now[i as int] == x);
                }
            }
        }
        match &responses[i] {
            Response::Kitty => {
                proto = Some(ProtocolType::Kitty);
                capabilities.push(Capability::Kitty);
            },
            Response::Sixel => {
                if proto.is_none() {
                    // Kitty is the better one.
                    proto = Some(ProtocolType::Sixel);
                }
                capabilities.push(Capability::Sixel);
            },
            Response::RectangularOps => {
                capabilities.push(Capability::RectangularOps);
            },
            Response::KittyCompression => {
                capabilities.push(Capability::KittyCompression);
            },
            Response::KittySharedMemory => {
                capabilities.push(Capability::KittySharedMemory);
            },
            Response::CellSize(cell_size) => {
                if let Some((w, h)) = cell_size {
                    font_size = Some(FontSize::from((*w, *h)));
                }
                capabilities.push(Capability::CellSize(*cell_size));
            },
            Response::CursorPositionReport(x, _) => {
                reported.push(*x);
            },
            Response::Background(r, g, b) => {
                capabilities.push(Capability::Background(*r, *g, *b));
            },
            Response::Status => {},
        }
    }
    assert(all.take(all.len() as int) =~= all);
    let font_size = match font_size {
        Some(size) => Some(size),
        None => fallback,
    };
    // Printing a space moves the cursor by one column in any terminal. By two it moves only where
    // the width, and then the scale, of the space is honoured. Some terminals honour one of the
    // two, which is not enough. The rows do not matter.
    if reported.len() == 3 && reported[1] as u32 == reported[0] as u32 + 2 && reported[2] as u32
        == reported[1] as u32 + 2 {
        capabilities.push(Capability::TextSizingProtocol);
    }
    Ok((proto, font_size, capabilities))
}

} // verus!
