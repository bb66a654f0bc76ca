//! Reading a terminal's replies until it has answered everything.
use vstd::prelude::*;

use crate::errors::Errors;
use crate::picker::cap_parser::{fresh, step, Parser, ParserState, Response};
use crate::picker::interpret::{
    first_known, interpret_parser_responses, reported_capabilities, reported_font_size,
    reported_protocol, QueryOutcome,
};
use crate::picker::replies::{
    escape_starts_anew, interruptible, run, status_comes_alone, status_report,
};
use crate::types::FontSize;

verus! {

/// How far the replies were read.
pub struct Progress {
    pub parser: ParserState,
    pub responses: Seq<Response>,
    pub finished: bool,
}

/// The replies of a terminal, as far as they were read.
pub struct Session {
    parser: Parser,
    responses: Vec<Response>,
    finished: bool,
}

impl View for Session {
    type V = Progress;

    closed spec fn view(&self) -> Progress {
        Progress {
            parser: self.parser@,
            responses: self.responses@,
            finished: self.finished,
        }
    }
}

/// Nothing was read.
pub open spec fn begun() -> Progress {
    Progress { parser: fresh(), responses: Seq::empty(), finished: false }
}

/// One character more: its responses are collected until the status report, which comes last.
pub open spec fn advance(p: Progress, next: char) -> Progress {
    let after = step(p.parser, next);
    if p.finished {
        p
    } else if after.1 == seq![Response::Status] {
        Progress { parser: after.0, responses: p.responses, finished: true }
    } else {
        Progress { parser: after.0, responses: p.responses + after.1, finished: false }
    }
}

/// Character after character.
pub open spec fn advance_all(p: Progress, input: Seq<char>) -> Progress
    decreases input.len(),
{
    if input.len() == 0 {
        p
    } else {
        advance(advance_all(p, input.drop_last()), input.last())
    }
}

/// Bytes as characters, each by itself.
pub open spec fn characters(bytes: Seq<u8>) -> Seq<char> {
    bytes.map_values(|b: u8| b as char)
}

/// Whether this is a status report and nothing else.
fn is_status(responses: &Vec<Response>) -> (r: bool)
    ensures
        r == (responses@ == seq![Response::Status]),
{
    if responses.len() != 1 {
        return false;
    }
    match responses[0] {
        Response::Status => {
            assert(responses@ =~= seq![Response::Status]);
            true
        },
        _ => {
            assert(responses@[0] != Response::Status);
            false
        },
    }
}

impl Session {
    /// Nothing was read.
    pub fn new() -> (r: Session)
        ensures
            r@ == begun(),
    {
        let r = Session { parser: Parser::new(), responses: Vec::new(), finished: false };
        assert(r@.responses =~= Seq::empty());
        r
    }

    /// Takes what was read from the terminal, and returns whether it has answered everything.
    /// What comes behind the status report is not looked at.
    pub fn feed(&mut self, bytes: &[u8]) -> (r: bool)
        ensures
            final(self)@ == advance_all(old(self)@, characters(bytes@)),
            r == final(self)@.finished,
    {
        let ghost before = self@;
        let ghost input = characters(bytes@);
        assert(input.take(0) =~= Seq::empty());
        for i in 0..bytes.len()
            invariant
                input == characters(bytes@),
                self@ == advance_all(before, input.take(i as int)),
        {
            assert(input.take(i + 1).drop_last() =~= input.take(i as int));
            assert(input[i as int] == bytes@[i as int] as char);
            if !self.finished {
                let mut more = self.parser.push(bytes[i] as char);
                if is_status(&more) {
                    self.finished = true;
                } else {
                    self.responses.append(&mut more);
                }
            }
        }
        assert(input.take(bytes@.len() as int) =~= input);
        self.finished
    }

    /// What the replies add up to. Where none of them tells the size of a cell, `fallback` stands
    /// in for it.
    pub fn outcome(self, fallback: Option<FontSize>) -> (r: Result<QueryOutcome, Errors>)
        ensures
            self@.responses.len() == 0 <==> r == Err::<QueryOutcome, Errors>(Errors::NoCap),
            self@.responses.len() > 0 <==> r is Ok,
            r matches Ok(outcome) ==> {
                &&& outcome.0 == reported_protocol(self@.responses)
                &&& outcome.1 == first_known(reported_font_size(self@.responses), fallback)
                &&& outcome.2@ == reported_capabilities(self@.responses)
            },
    {
        interpret_parser_responses(self.responses, fallback)
    }
}

/// What a thread that queries the terminal reports.
pub enum QueryResult {
    Done(QueryOutcome),
    Failed(Errors),
    /// The terminal was read or written, which starts the time it may stay silent anew.
    Busy,
}

/// What to do after waiting for a [`QueryResult`].
pub enum AfterWait {
    /// Wait again, for the whole time.
    WaitAgain,
    /// Stop waiting.
    Return(Result<QueryOutcome, Errors>),
}

/// What to do after waiting: `received` is what came, and nothing where the time was up or the
/// thread had ended.
pub fn after_wait(received: Option<QueryResult>) -> (r: AfterWait)
    ensures
        r == (match received {
            Some(QueryResult::Done(outcome)) => AfterWait::Return(Ok(outcome)),
            Some(QueryResult::Failed(err)) => AfterWait::Return(Err(err)),
            Some(QueryResult::Busy) => AfterWait::WaitAgain,
            None => AfterWait::Return(Err(Errors::NoStdinResponse)),
        }),
{
    match received {
        Some(QueryResult::Done(outcome)) => AfterWait::Return(Ok(outcome)),
        Some(QueryResult::Failed(err)) => AfterWait::Return(Err(err)),
        Some(QueryResult::Busy) => AfterWait::WaitAgain,
        None => AfterWait::Return(Err(Errors::NoStdinResponse)),
    }
}

/// A session begins with nothing read, and one character more adds what the parser makes of it. The
/// status is not added but ends the session, behind which nothing changes.
pub proof fn one_character_more(input: Seq<char>, next: char)
    ensures
        advance_all(begun(), Seq::empty()).responses.len() == 0,
        !advance_all(begun(), Seq::empty()).finished,
        ({
            let before = advance_all(begun(), input);
            let after = advance_all(begun(), input.push(next));
            let made = step(before.parser, next);
            &&& before.finished ==> after == before
            &&& !before.finished ==> after.parser == made.0
            &&& !before.finished && made.1.contains(Response::Status) ==> after.finished
                && after.responses == before.responses
            &&& !before.finished && !made.1.contains(Response::Status) ==> !after.finished
                && after.responses == before.responses + made.1
        }),
{
    let before = advance_all(begun(), input);
    assert(input.push(next).drop_last() =~= input);
    status_comes_alone(before.parser, next);
    if step(before.parser, next).1 == seq![Response::Status] {
        assert(step(before.parser, next).1[0] == Response::Status);
    }
}

/// It makes no difference in what portions the replies are read.
pub proof fn feeding_in_parts(p: Progress, first: Seq<char>, second: Seq<char>)
    ensures
        advance_all(p, first + second) == advance_all(advance_all(p, first), second),
    decreases second.len(),
{
    let whole = first + second;
    if second.len() == 0 {
        assert(whole =~= first);
    } else {
        assert(whole.drop_last() =~= first + second.drop_last());
        feeding_in_parts(p, first, second.drop_last());
    }
}

/// What comes behind the status report changes nothing.
pub proof fn nothing_counts_behind_the_end(p: Progress, input: Seq<char>)
    requires
        p.finished,
    ensures
        advance_all(p, input) == p,
    decreases input.len(),
{
    if input.len() > 0 {
        nothing_counts_behind_the_end(p, input.drop_last());
    }
}

/// As long as the status report has not come, all that the parser reports is collected.
pub proof fn all_responses_are_collected(p: Progress, input: Seq<char>)
    requires
        !p.finished,
    ensures
        !advance_all(p, input).finished ==> {
            &&& advance_all(p, input).parser == run(p.parser, input).0
            &&& advance_all(p, input).responses == p.responses + run(p.parser, input).1
        },
    decreases input.len(),
{
    if input.len() == 0 {
        assert(p.responses + Seq::<Response>::empty() =~= p.responses);
    } else {
        all_responses_are_collected(p, input.drop_last());
        let before = run(p.parser, input.drop_last());
        let last = step(before.0, input.last()).1;
        assert(p.responses + before.1 + last =~= p.responses + (before.1 + last));
    }
}

/// The status report itself is never collected.
pub proof fn status_is_not_collected(p: Progress, input: Seq<char>)
    requires
        !p.responses.contains(Response::Status),
    ensures
        !advance_all(p, input).responses.contains(Response::Status),
    decreases input.len(),
{
    if input.len() > 0 {
        status_is_not_collected(p, input.drop_last());
        let before = advance_all(p, input.drop_last());
        let after = step(before.parser, input.last());
        status_comes_alone(before.parser, input.last());
        if !before.finished && after.1 != seq![Response::Status] {
            let all = before.responses + after.1;
            if all.contains(Response::Status) {
                let i = choose|i: int| 0 <= i < all.len() && all[i] == Response::Status;
                if i < before.responses.len() {
                    assert(before.responses.contains(before.responses[i]));
                } else {
                    assert(after.1.contains(after.1[i - before.responses.len()]));
                }
            }
        }
    }
}

/// A session is finished exactly where the parser has reported the status.
pub proof fn the_status_finishes(input: Seq<char>)
    ensures
        advance_all(begun(), input).finished <==> run(fresh(), input).1.contains(Response::Status),
    decreases input.len(),
{
    if input.len() > 0 {
        let init = input.drop_last();
        the_status_finishes(init);
        all_responses_are_collected(begun(), init);
        let before = run(fresh(), init);
        let last = step(before.0, input.last()).1;
        status_comes_alone(before.0, input.last());
        let all = before.1 + last;
        if before.1.contains(Response::Status) {
            let i = choose|i: int| 0 <= i < before.1.len() && before.1[i] == Response::Status;
            assert(all[i] == Response::Status);
        }
        if last == seq![Response::Status] {
            assert(last[0] == Response::Status);
            assert(all[all.len() - 1] == Response::Status);
        }
        if all.contains(Response::Status) && !before.1.contains(Response::Status) {
            let i = choose|i: int| 0 <= i < all.len() && all[i] == Response::Status;
            if i < before.1.len() {
                assert(before.1.contains(before.1[i]));
            }
            assert(last[i - before.1.len()] == Response::Status);
        }
    }
}

/// Reading ends with the status report: behind replies that leave the parser where an escape is
/// heard, it finishes the session with the responses of those replies.
pub proof fn status_report_ends_the_session(replies: Seq<char>, rest: Seq<char>)
    requires
        !run(fresh(), replies).1.contains(Response::Status),
        interruptible(run(fresh(), replies).0),
    ensures
        advance_all(begun(), replies + "\x1b[0n"@ + rest).finished,
        advance_all(begun(), replies + "\x1b[0n"@ + rest).responses == run(fresh(), replies).1,
{
    let end = "\x1b[0n"@;
    reveal_strlit("\x1b[0n");
    let read = advance_all(begun(), replies);
    the_status_finishes(replies);
    all_responses_are_collected(begun(), replies);
    assert(Seq::<Response>::empty() + run(fresh(), replies).1 =~= run(fresh(), replies).1);
    let st = run(fresh(), replies).0;
    status_report(st);
    // The first three characters complete nothing.
    let three = end.drop_last();
    assert(run(st, end).1 == run(st, three).1 + step(run(st, three).0, 'n').1);
    assert(three =~= seq!['\x1b', '[', '0']);
    lemma_three(st, three);
    let none = Seq::<Response>::empty();
    assert(none + step(run(st, three).0, 'n').1 =~= step(run(st, three).0, 'n').1);
    lemma_silent(read, three);
    feeding_in_parts(begun(), replies, end);
    feeding_in_parts(begun(), replies + end, rest);
    assert(read.responses + none =~= read.responses);
    nothing_counts_behind_the_end(advance_all(begun(), replies + end), rest);
}

/// An escape, a bracket and a zero complete nothing.
proof fn lemma_three(st: ParserState, s: Seq<char>)
    requires
        interruptible(st),
        s == seq!['\x1b', '[', '0'],
    ensures
        forall|n: int|
            0 <= n <= 3 ==> (#[trigger] run(st, s.take(n))).1 == Seq::<Response>::empty(),
        run(st, s).1 == Seq::<Response>::empty(),
{
    reveal_strlit("[0");
    reveal_strlit("[");
    reveal_strlit("]");
    reveal_strlit("_Gi=31");
    reveal_strlit("_Gi=32");
    reveal_strlit("_Gi=33");
    escape_starts_anew(st);
    let none = Seq::<Response>::empty();
    assert(none + none =~= none);
    assert(s.take(0) =~= Seq::empty());
    assert(s.take(1).drop_last() =~= s.take(0));
    assert(s.take(2).drop_last() =~= s.take(1));
    assert(s.take(3).drop_last() =~= s.take(2));
    assert(s.take(3) =~= s);
    assert(run(st, s.take(0)) == (st, none));
    assert(run(st, s.take(1)) == (fresh(), none));
    assert(run(st, s.take(2)).1 == none);
    assert(run(st, s.take(3)).1 == none);
}

/// Input that completes nothing does not finish the session.
proof fn lemma_silent(p: Progress, input: Seq<char>)
    requires
        !p.finished,
        forall|n: int|
            0 <= n <= input.len() ==> (#[trigger] run(p.parser, input.take(n))).1 == Seq::<
                Response,
            >::empty(),
    ensures
        !advance_all(p, input).finished,
        advance_all(p, input).parser == run(p.parser, input).0,
        advance_all(p, input).responses == p.responses,
    decreases input.len(),
{
    let none = Seq::<Response>::empty();
    assert(input.take(input.len() as int) =~= input);
    if input.len() > 0 {
        let init = input.drop_last();
        assert forall|n: int| 0 <= n <= init.len() implies (#[trigger] run(
            p.parser,
            init.take(n),
        )).1 == none by {
            assert(init.take(n) =~= input.take(n));
        }
        lemma_silent(p, init);
        assert(init.take(init.len() as int) =~= init);
        assert(run(p.parser, init).1 == none);
        let last = step(run(p.parser, init).0, input.last()).1;
        assert(none + last =~= last);
        assert(run(p.parser, input).1 == last);
        assert(p.responses + none =~= p.responses);
        assert(none.len() == 0);
    }
}

} // verus!
