//! What holds of every choice of a protocol.
use vstd::prelude::*;

use crate::errors::Errors;
use crate::picker::cap_parser::{fresh, Response};
use crate::picker::environment::{inside_tmux, Environment};
use crate::picker::interpret::{
    capability, columns, first_known, moved_by_two, reported_capabilities, reported_font_size,
    reported_protocol,
};
use crate::picker::replies::{
    attribute_of_number, cell_size_report, device_attributes_report, listing,
    probe_answered_or_refused, probe_reply, reading_in_parts, run,
};
use crate::picker::session::{advance_all, begun, status_report_ends_the_session, Progress};
use crate::picker::{
    answered, fixed_protocol, hinted, is_silence, nothing_known, or_halfblocks, resizing_protocol,
    setup_of, unanswered, Capability, PickerState, ProtocolSetup, ProtocolType,
};
use crate::text::decimal;
use crate::types::{FontSize, Size};

verus! {

proof fn lemma_filter_map_keeps<A, B>(s: Seq<A>, f: spec_fn(A) -> Option<B>, i: int)
    requires
        0 <= i < s.len(),
        f(s[i]) is Some,
    ensures
        s.filter_map(f).contains(f(s[i])->0),
    decreases s.len(),
{
    let kept = s.filter_map(f);
    let init = s.drop_last();
    if i == s.len() - 1 {
        assert(kept.last() == f(s[i])->0);
        assert(kept[kept.len() - 1] == f(s[i])->0);
    } else {
        assert(init[i] == s[i]);
        lemma_filter_map_keeps(init, f, i);
        let before = init.filter_map(f);
        let j = choose|j: int| 0 <= j < before.len() && before[j] == f(s[i])->0;
        assert(kept[j] == f(s[i])->0);
    }
}

/// A capability is there because a response reports it, or, for the text sizing protocol, because
/// the cursor moved by two columns twice. There is no other way to it, and none is lost.
pub proof fn capabilities_are_reported(responses: Seq<Response>, c: Capability)
    ensures
        reported_capabilities(responses).contains(c) <==> {
            ||| c == Capability::TextSizingProtocol && moved_by_two(columns(responses))
            ||| exists|i: int|
                0 <= i < responses.len() && capability(#[trigger] responses[i]) == Some(c)
        },
{
    let f = |response: Response| capability(response);
    let single = responses.filter_map(f);
    let all = reported_capabilities(responses);
    if exists|i: int| 0 <= i < responses.len() && capability(#[trigger] responses[i]) == Some(c) {
        let i = choose|i: int|
            0 <= i < responses.len() && capability(#[trigger] responses[i]) == Some(c);
        lemma_filter_map_keeps(responses, f, i);
        let j = choose|j: int| 0 <= j < single.len() && single[j] == c;
        assert(all[j] == c);
    }
    if c == Capability::TextSizingProtocol && moved_by_two(columns(responses)) {
        assert(all[all.len() - 1] == c);
    }
    if all.contains(c) {
        let j = choose|j: int| 0 <= j < all.len() && all[j] == c;
        if j < single.len() {
            assert(single[j] == c);
            assert(single.contains(c));
            responses.lemma_filter_map_contains(f, c);
            let t = choose|t: Response| #[trigger] responses.contains(t) && f(t) == Some(c);
            let i = choose|i: int| 0 <= i < responses.len() && responses[i] == t;
            assert(capability(responses[i]) == Some(c));
        }
    }
}

/// Each response reports one capability, which is there exactly where the response is, with the
/// values that it has.
pub proof fn capabilities_of_responses(
    responses: Seq<Response>,
    size: Option<(u16, u16)>,
    r: u8,
    g: u8,
    b: u8,
)
    ensures
        ({
            let all = reported_capabilities(responses);
            &&& all.contains(Capability::Kitty) <==> responses.contains(Response::Kitty)
            &&& all.contains(Capability::Sixel) <==> responses.contains(Response::Sixel)
            &&& all.contains(Capability::RectangularOps) <==> responses.contains(
                Response::RectangularOps,
            )
            &&& all.contains(Capability::KittyCompression) <==> responses.contains(
                Response::KittyCompression,
            )
            &&& all.contains(Capability::KittySharedMemory) <==> responses.contains(
                Response::KittySharedMemory,
            )
            &&& all.contains(Capability::CellSize(size)) <==> responses.contains(
                Response::CellSize(size),
            )
            &&& all.contains(Capability::Background(r, g, b)) <==> responses.contains(
                Response::Background(r, g, b),
            )
        }),
{
    lemma_reported_as(responses, Response::Kitty, Capability::Kitty);
    lemma_reported_as(responses, Response::Sixel, Capability::Sixel);
    lemma_reported_as(responses, Response::RectangularOps, Capability::RectangularOps);
    lemma_reported_as(responses, Response::KittyCompression, Capability::KittyCompression);
    lemma_reported_as(responses, Response::KittySharedMemory, Capability::KittySharedMemory);
    lemma_reported_as(responses, Response::CellSize(size), Capability::CellSize(size));
    lemma_reported_as(responses, Response::Background(r, g, b), Capability::Background(r, g, b));
}

proof fn lemma_reported_as(responses: Seq<Response>, response: Response, c: Capability)
    requires
        c != Capability::TextSizingProtocol,
        forall|x: Response| #[trigger] capability(x) == Some(c) <==> x == response,
    ensures
        reported_capabilities(responses).contains(c) <==> responses.contains(response),
{
    capabilities_are_reported(responses, c);
    if responses.contains(response) {
        let i = choose|i: int| 0 <= i < responses.len() && responses[i] == response;
        assert(capability(responses[i]) == Some(c));
    }
}

proof fn lemma_columns_of_reports(responses: Seq<Response>)
    ensures
        ({
            let reports = responses.filter(|x: Response| x is CursorPositionReport);
            &&& columns(responses).len() == reports.len()
            &&& forall|i: int|
                0 <= i < reports.len() ==> reports[i] is CursorPositionReport && #[trigger] columns(
                    responses,
                )[i] == reports[i]->CursorPositionReport_0
        }),
    decreases responses.len(),
{
    reveal(Seq::filter);
    if responses.len() > 0 {
        lemma_columns_of_reports(responses.drop_last());
    }
}

/// The text sizing protocol is there exactly where the cursor was reported three times, in a column
/// `a`, then in `a + 2` and then in `a + 4`. A terminal without it moves by one column each time.
pub proof fn text_sizing_moves_by_two_columns(responses: Seq<Response>)
    ensures
        ({
            let reports = responses.filter(|x: Response| x is CursorPositionReport);
            reported_capabilities(responses).contains(Capability::TextSizingProtocol) <==> {
                &&& reports.len() == 3
                &&& reports[1]->CursorPositionReport_0 == reports[0]->CursorPositionReport_0 + 2
                &&& reports[2]->CursorPositionReport_0 == reports[0]->CursorPositionReport_0 + 4
            }
        }),
{
    capabilities_are_reported(responses, Capability::TextSizingProtocol);
    lemma_columns_of_reports(responses);
    let reports = responses.filter(|x: Response| x is CursorPositionReport);
    if reports.len() == 3 {
        assert(columns(responses)[0] == reports[0]->CursorPositionReport_0);
        assert(columns(responses)[1] == reports[1]->CursorPositionReport_0);
        assert(columns(responses)[2] == reports[2]->CursorPositionReport_0);
    }
}

/// Capabilities come in the order of their responses, one for each, whatever cursor positions and
/// status reports stand between them. The text sizing protocol comes behind all others.
pub proof fn capabilities_keep_their_order(responses: Seq<Response>)
    ensures
        ({
            let plain = responses.filter(
                |x: Response| !(x is CursorPositionReport) && !(x is Status),
            );
            let all = reported_capabilities(responses);
            &&& all.len() == plain.len() || all.len() == plain.len() + 1 && all.last()
                == Capability::TextSizingProtocol
            &&& forall|i: int| 0 <= i < plain.len() ==> #[trigger] all[i] == (match plain[i] {
                Response::Kitty => Capability::Kitty,
                Response::Sixel => Capability::Sixel,
                Response::RectangularOps => Capability::RectangularOps,
                Response::KittyCompression => Capability::KittyCompression,
                Response::KittySharedMemory => Capability::KittySharedMemory,
                Response::CellSize(size) => Capability::CellSize(size),
                Response::Background(r, g, b) => Capability::Background(r, g, b),
                _ => all[i],
            })
        }),
{
    lemma_plain_responses(responses);
}

proof fn lemma_plain_responses(responses: Seq<Response>)
    ensures
        ({
            let plain = responses.filter(
                |x: Response| !(x is CursorPositionReport) && !(x is Status),
            );
            let single = responses.filter_map(|x: Response| capability(x));
            &&& single.len() == plain.len()
            &&& forall|i: int|
                0 <= i < plain.len() ==> Some(#[trigger] single[i]) == capability(plain[i])
        }),
    decreases responses.len(),
{
    reveal(Seq::filter);
    if responses.len() > 0 {
        lemma_plain_responses(responses.drop_last());
    }
}

/// Kitty is taken before sixel, in whatever order the two are reported, and without either there
/// is none.
pub proof fn kitty_goes_before_sixel(responses: Seq<Response>)
    ensures
        responses.contains(Response::Kitty) ==> reported_protocol(responses) == Some(
            ProtocolType::Kitty,
        ),
        !responses.contains(Response::Kitty) && responses.contains(Response::Sixel)
            ==> reported_protocol(responses) == Some(ProtocolType::Sixel),
        !responses.contains(Response::Kitty) && !responses.contains(Response::Sixel)
            ==> reported_protocol(responses) is None,
{
}

/// The size of a cell is the one that was reported last.
pub proof fn the_last_cell_size_counts(
    before: Seq<Response>,
    width: u16,
    height: u16,
    after: Seq<Response>,
)
    requires
        forall|i: int| 0 <= i < after.len() ==> !(#[trigger] after[i] matches Response::CellSize(
            Some(_),
        )),
    ensures
        ({
            let size = reported_font_size(
                before.push(Response::CellSize(Some((width, height)))) + after,
            );
            size matches Some(s) && s.width == width && s.height == height
        }),
    decreases after.len(),
{
    let all = before.push(Response::CellSize(Some((width, height)))) + after;
    if after.len() > 0 {
        let init = after.drop_last();
        assert forall|i: int| 0 <= i < init.len() implies !(#[trigger] init[i] matches Response::CellSize(
            Some(_),
        )) by {
            assert(init[i] == after[i]);
        }
        the_last_cell_size_counts(before, width, height, init);
        assert(all.drop_last() =~= before.push(Response::CellSize(Some((width, height)))) + init);
        assert(all.last() == after[after.len() - 1]);
    } else {
        assert(all =~= before.push(Response::CellSize(Some((width, height)))));
    }
}

/// Where no size of a cell was reported, there is none.
pub proof fn no_cell_size_is_made_up(responses: Seq<Response>)
    requires
        forall|i: int|
            0 <= i < responses.len() ==> !(#[trigger] responses[i] matches Response::CellSize(
                Some(_),
            )),
    ensures
        reported_font_size(responses) is None,
    decreases responses.len(),
{
    if responses.len() > 0 {
        let init = responses.drop_last();
        assert forall|i: int|
            0 <= i < init.len() implies !(#[trigger] init[i] matches Response::CellSize(
            Some(_),
        )) by {
            assert(init[i] == responses[i]);
        }
        no_cell_size_is_made_up(init);
        assert(responses[responses.len() - 1] == responses.last());
    }
}

/// What is known first counts, and the second only where the first is not known.
pub proof fn the_first_known_counts<T>(v: T, other: Option<T>)
    ensures
        first_known(Some(v), other) == Some(v),
        first_known(None::<T>, other) == other,
{
}

/// Without the size of a cell only half blocks are used, whatever is reported or hinted at.
pub proof fn no_font_size_means_halfblocks(
    env: Environment,
    kitty_shm: Option<u32>,
    protocol: Option<ProtocolType>,
    capabilities: Seq<Capability>,
)
    ensures
        answered(env, kitty_shm, protocol, None, capabilities).protocol_type
            == ProtocolType::Halfblocks,
        unanswered(inside_tmux(env), protocol, None).protocol_type == ProtocolType::Halfblocks,
{
}

/// What the terminal reports goes before every hint of the environment, and a hint goes before
/// half blocks.
pub proof fn the_terminal_knows_best(
    env: Environment,
    kitty_shm: Option<u32>,
    protocol: Option<ProtocolType>,
    font_size: FontSize,
    capabilities: Seq<Capability>,
)
    ensures
        protocol matches Some(p) ==> answered(
            env,
            kitty_shm,
            protocol,
            Some(font_size),
            capabilities,
        ).protocol_type == p,
        protocol is None ==> answered(
            env,
            kitty_shm,
            protocol,
            Some(font_size),
            capabilities,
        ).protocol_type == or_halfblocks(hinted(env)),
{
}

/// The environment never hints at anything but the protocol of iTerm2.
pub proof fn hints_are_for_iterm2(env: Environment)
    ensures
        hinted(env) is None || hinted(env) == Some(ProtocolType::Iterm2),
{
}

/// Shared memory is used only where the terminal has reported to read it, and with the number that
/// was asked for.
pub proof fn shared_memory_only_where_reported(
    env: Environment,
    kitty_shm: Option<u32>,
    protocol: Option<ProtocolType>,
    font_size: Option<FontSize>,
    capabilities: Seq<Capability>,
)
    ensures
        answered(env, kitty_shm, protocol, font_size, capabilities).kitty_shm == (
        if capabilities.contains(Capability::KittySharedMemory) {
            kitty_shm
        } else {
            None
        }),
        unanswered(inside_tmux(env), protocol, font_size).kitty_shm is None,
{
}

/// Only kitty depends on the number of the image, and compresses exactly where the terminal has
/// reported to read that.
pub proof fn setups_of_kitty(picker: PickerState, a: u32, b: u32)
    ensures
        picker.protocol_type != ProtocolType::Kitty ==> setup_of(picker, a) == setup_of(picker, b),
        setup_of(picker, a) matches ProtocolSetup::Kitty { unique_id, compression, .. } ==> {
            &&& unique_id == a
            &&& compression == picker.capabilities.contains(Capability::KittyCompression)
        },
{
}

/// Without an answer, the size of a cell and the hint are taken as they are, or, without a size,
/// half blocks at ten by twenty pixels. Nothing was reported, so nothing else is set.
pub proof fn what_is_held_without_an_answer(
    is_tmux: bool,
    hint: Option<ProtocolType>,
    font_size: Option<FontSize>,
)
    ensures
        ({
            let p = unanswered(is_tmux, hint, font_size);
            &&& p.is_tmux == is_tmux
            &&& p.background_color is None
            &&& p.capabilities.len() == 0
            &&& p.kitty_shm is None
            &&& font_size matches Some(size) ==> p.font_size.width == size.width
                && p.font_size.height == size.height
            &&& font_size is None ==> p.font_size.width == 10 && p.font_size.height == 20
                && p.protocol_type == ProtocolType::Halfblocks
            &&& font_size is Some ==> (hint matches Some(protocol) ==> p.protocol_type == protocol)
            &&& hint is None ==> p.protocol_type == ProtocolType::Halfblocks
        }),
{
}

/// A picker where nothing is known shows half blocks, as one without an answer and without the size
/// of a cell does.
pub proof fn what_is_held_where_nothing_is_known(is_tmux: bool, hint: Option<ProtocolType>)
    ensures
        nothing_known(is_tmux) == unanswered(is_tmux, hint, None),
{
}

/// With an answer, all that it reports is held as it is: the size of a cell, the capabilities, and
/// the protocol, before that of the environment. No color is set.
pub proof fn what_is_held_with_an_answer(
    env: Environment,
    kitty_shm: Option<u32>,
    protocol: Option<ProtocolType>,
    font_size: FontSize,
    capabilities: Seq<Capability>,
)
    ensures
        ({
            let p = answered(env, kitty_shm, protocol, Some(font_size), capabilities);
            &&& p.is_tmux == inside_tmux(env)
            &&& p.background_color is None
            &&& p.capabilities == capabilities
            &&& p.font_size.width == font_size.width
            &&& p.font_size.height == font_size.height
            &&& protocol matches Some(reported) ==> p.protocol_type == reported
            &&& protocol is None ==> (hinted(env) matches Some(hint) ==> p.protocol_type == hint)
            &&& protocol is None && hinted(env) is None ==> p.protocol_type
                == ProtocolType::Halfblocks
            &&& capabilities.contains(Capability::KittySharedMemory) ==> p.kitty_shm == kitty_shm
            &&& !capabilities.contains(Capability::KittySharedMemory) ==> p.kitty_shm is None
        }),
{
}

/// An answer without the size of a cell is not used, but for shared memory.
pub proof fn what_is_held_without_a_cell_size(
    env: Environment,
    kitty_shm: Option<u32>,
    protocol: Option<ProtocolType>,
    capabilities: Seq<Capability>,
)
    ensures
        ({
            let p = answered(env, kitty_shm, protocol, None, capabilities);
            &&& p.is_tmux == inside_tmux(env)
            &&& p.background_color is None
            &&& p.capabilities.len() == 0
            &&& p.font_size.width == 10
            &&& p.font_size.height == 20
            &&& p.protocol_type == ProtocolType::Halfblocks
            &&& capabilities.contains(Capability::KittySharedMemory) ==> p.kitty_shm == kitty_shm
            &&& !capabilities.contains(Capability::KittySharedMemory) ==> p.kitty_shm is None
        }),
{
}

/// A terminal that is silent, tells nothing, or has no size to tell, is no failure. One that cannot
/// be read or written is.
pub proof fn only_io_fails(err: Errors)
    ensures
        is_silence(err) <==> !(err is Io),
{
}

/// A protocol is set up with what the picker holds for it, and with nothing else.
pub proof fn setups_hold_what_the_picker_holds(picker: PickerState, id: u32)
    ensures
        picker.protocol_type == ProtocolType::Halfblocks ==> setup_of(picker, id)
            == ProtocolSetup::Halfblocks,
        picker.protocol_type == ProtocolType::Sixel ==> (setup_of(
            picker,
            id,
        ) matches ProtocolSetup::Sixel {
            is_tmux,
        } && is_tmux == picker.is_tmux),
        picker.protocol_type == ProtocolType::Iterm2 ==> (setup_of(
            picker,
            id,
        ) matches ProtocolSetup::ITerm2 {
            is_tmux,
        } && is_tmux == picker.is_tmux),
        picker.protocol_type == ProtocolType::Kitty ==> (setup_of(
            picker,
            id,
        ) matches ProtocolSetup::Kitty {
            unique_id,
            is_tmux,
            compression,
            shm,
        } && unique_id == id && is_tmux == picker.is_tmux && shm == picker.kitty_shm && (compression
            <==> picker.capabilities.contains(Capability::KittyCompression))),
{
}

/// An image that is resized while it is shown is shown with the picker's own size of a cell, color
/// and protocol.
pub proof fn resizing_uses_what_the_picker_holds(picker: PickerState, id: u32)
    ensures
        resizing_protocol(picker, id).font_size.width == picker.font_size.width,
        resizing_protocol(picker, id).font_size.height == picker.font_size.height,
        resizing_protocol(picker, id).background_color == picker.background_color,
        resizing_protocol(picker, id).setup == setup_of(picker, id),
{
}

/// An image is resized where it needs to be and nowhere else, to the size that it needs, with the
/// picker's size of a cell and color. It then fills that size, and its own size otherwise.
pub proof fn images_are_resized_where_needed(
    picker: PickerState,
    desired: Size,
    needed: Size,
    id: u32,
)
    ensures
        ({
            let kept = fixed_protocol(picker, desired, None, id);
            let resized = fixed_protocol(picker, desired, Some(needed), id);
            &&& kept.resize is None
            &&& kept.area.width == desired.width
            &&& kept.area.height == desired.height
            &&& kept.setup == setup_of(picker, id)
            &&& resized.area.width == needed.width
            &&& resized.area.height == needed.height
            &&& resized.setup == setup_of(picker, id)
            &&& resized.resize matches Some(to) && {
                &&& to.area.width == needed.width
                &&& to.area.height == needed.height
                &&& to.font_size.width == picker.font_size.width
                &&& to.font_size.height == picker.font_size.height
                &&& to.background_color == picker.background_color
            }
        }),
{
}

/// The cycle of protocols, from the one that works everywhere.
pub proof fn the_cycle_of_protocols()
    ensures
        ProtocolType::Halfblocks.successor() == ProtocolType::Sixel,
        ProtocolType::Sixel.successor() == ProtocolType::Kitty,
        ProtocolType::Kitty.successor() == ProtocolType::Iterm2,
        ProtocolType::Iterm2.successor() == ProtocolType::Halfblocks,
{
}

/// The text that reports the size of a cell.
pub open spec fn cell_size_text(size: FontSize) -> Seq<char> {
    "\x1b[6;"@ + decimal(size.height as nat) + ";"@ + decimal(size.width as nat) + "t"@
}

/// The picker for a terminal whose replies were read as far as `p`.
pub open spec fn picked(
    env: Environment,
    kitty_shm: Option<u32>,
    p: Progress,
    fallback: Option<FontSize>,
) -> PickerState {
    answered(
        env,
        kitty_shm,
        reported_protocol(p.responses),
        first_known(reported_font_size(p.responses), fallback),
        reported_capabilities(p.responses),
    )
}

/// A terminal that confirms the probe for kitty graphics, reports any attributes and the size of a
/// cell, and ends with its status, is used with kitty at that size, whatever the environment is.
pub proof fn kitty_is_found(
    env: Environment,
    kitty_shm: Option<u32>,
    attributes: Seq<nat>,
    size: FontSize,
    fallback: Option<FontSize>,
)
    requires
        attributes.len() >= 1,
        size.width > 0,
        size.height > 0,
    ensures
        ({
            let p = advance_all(
                begun(),
                probe_reply('1', "OK\x1b"@) + ("\x1b[?"@ + listing(attributes) + "c"@)
                    + cell_size_text(size) + "\x1b[0n"@,
            );
            &&& p.finished
            &&& picked(env, kitty_shm, p, fallback).protocol_type == ProtocolType::Kitty
            &&& picked(env, kitty_shm, p, fallback).font_size == size
        }),
{
    let kitty = probe_reply('1', "OK\x1b"@);
    let attrs = "\x1b[?"@ + listing(attributes) + "c"@;
    let cell = cell_size_text(size);
    let found = attributes.filter_map(|n: nat| attribute_of_number(n));
    reveal_strlit("OK\x1b");
    probe_answered_or_refused(fresh(), '1', "OK\x1b"@);
    device_attributes_report(fresh(), attributes);
    cell_size_report(fresh(), size.height, size.width);
    reading_in_parts(fresh(), kitty, attrs);
    reading_in_parts(fresh(), kitty + attrs, cell);
    let reported = Response::CellSize(Some((size.width, size.height)));
    let responses = seq![Response::Kitty] + found + seq![reported];
    assert(run(fresh(), kitty + attrs + cell).1 == responses);
    if responses.contains(Response::Status) {
        let i = choose|i: int| 0 <= i < responses.len() && responses[i] == Response::Status;
        assert(found[i - 1] == Response::Status);
        assert(found.contains(Response::Status));
        attributes.lemma_filter_map_contains(
            |n: nat| attribute_of_number(n),
            Response::Status,
        );
    }
    let whole = kitty + attrs + cell + "\x1b[0n"@;
    status_report_ends_the_session(kitty + attrs + cell, Seq::empty());
    assert(whole + Seq::<char>::empty() =~= whole);
    assert(responses[0] == Response::Kitty);
    assert(responses.last() == reported);
}

} // verus!
