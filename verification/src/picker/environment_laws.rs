//! What each variable of the environment hints at.
use vstd::prelude::*;

use crate::picker::environment::{
    hints_at_iterm2, hints_at_outer_iterm2, inside_tmux, iterm2_if, left_out, Environment,
};
use crate::picker::{hinted, ProtocolType};
use crate::text::occurs;
use crate::text_laws::what_is_inside_occurs;

verus! {

/// Tmux is told by either of two variables: by `TERM` where it begins with `tmux`, whatever
/// `TERM_PROGRAM` is, and by `TERM_PROGRAM` where it is `tmux`, whatever `TERM` is. It is told by
/// nothing else.
pub proof fn tmux_is_told_by_either(env: Environment)
    ensures
        env.term matches Some(term) ==> ("tmux"@.is_prefix_of(term@) ==> inside_tmux(env)),
        env.term_program matches Some(program) ==> (program@ == "tmux"@ ==> inside_tmux(env)),
        (env.term matches Some(term) ==> !"tmux"@.is_prefix_of(term@)) && (env.term_program matches Some(
            program,
        ) ==> program@ != "tmux"@) ==> !inside_tmux(env),
{
}

/// Any text behind `tmux` in `TERM` tells tmux just as well.
pub proof fn tmux_with_any_ending(env: Environment, ending: Seq<char>)
    requires
        env.term matches Some(term) && term@ == "tmux"@ + ending,
    ensures
        inside_tmux(env),
{
    let term = env.term->0@;
    assert(term.subrange(0, "tmux"@.len() as int) =~= "tmux"@);
}

/// Variables that say nothing of tmux do not matter to it.
pub proof fn tmux_is_told_by_nothing_else(a: Environment, b: Environment)
    requires
        a.term == b.term,
        a.term_program == b.term_program,
    ensures
        inside_tmux(a) == inside_tmux(b),
{
}

/// Inside of tmux, and only there, each of two variables hints at iTerm2, where it is not empty.
pub proof fn outer_terminals_are_hinted_at(env: Environment)
    ensures
        iterm2_if(hints_at_outer_iterm2(env)) is Some ==> inside_tmux(env),
        inside_tmux(env) && (env.iterm_session_id matches Some(id) && id@.len() > 0) ==> iterm2_if(
            hints_at_outer_iterm2(env),
        ) == Some(ProtocolType::Iterm2),
        inside_tmux(env) && (env.wezterm_executable matches Some(path) && path@.len() > 0)
            ==> iterm2_if(hints_at_outer_iterm2(env)) == Some(ProtocolType::Iterm2),
        (env.iterm_session_id matches Some(id) ==> id@.len() == 0) && (
        env.wezterm_executable matches Some(path) ==> path@.len() == 0) ==> iterm2_if(
            hints_at_outer_iterm2(env),
        ) is None,
{
}

/// Each of nine names hints at iTerm2 wherever it stands in `TERM_PROGRAM`.
pub proof fn programs_that_hint_at_iterm2(env: Environment, before: Seq<char>, after: Seq<char>)
    requires
        env.term_program is Some,
    ensures
        ({
            let program = env.term_program->0@;
            let hint = iterm2_if(hints_at_iterm2(env));
            &&& program == before + "iTerm"@ + after ==> hint == Some(ProtocolType::Iterm2)
            &&& program == before + "WezTerm"@ + after ==> hint == Some(ProtocolType::Iterm2)
            &&& program == before + "mintty"@ + after ==> hint == Some(ProtocolType::Iterm2)
            &&& program == before + "vscode"@ + after ==> hint == Some(ProtocolType::Iterm2)
            &&& program == before + "Tabby"@ + after ==> hint == Some(ProtocolType::Iterm2)
            &&& program == before + "Hyper"@ + after ==> hint == Some(ProtocolType::Iterm2)
            &&& program == before + "rio"@ + after ==> hint == Some(ProtocolType::Iterm2)
            &&& program == before + "Bobcat"@ + after ==> hint == Some(ProtocolType::Iterm2)
            &&& program == before + "WarpTerminal"@ + after ==> hint == Some(ProtocolType::Iterm2)
        }),
{
    what_is_inside_occurs(before, "iTerm"@, after);
    what_is_inside_occurs(before, "WezTerm"@, after);
    what_is_inside_occurs(before, "mintty"@, after);
    what_is_inside_occurs(before, "vscode"@, after);
    what_is_inside_occurs(before, "Tabby"@, after);
    what_is_inside_occurs(before, "Hyper"@, after);
    what_is_inside_occurs(before, "rio"@, after);
    what_is_inside_occurs(before, "Bobcat"@, after);
    what_is_inside_occurs(before, "WarpTerminal"@, after);
}

/// `LC_TERMINAL` hints at iTerm2 where `iTerm` stands in it, whatever the program is.
pub proof fn terminals_that_hint_at_iterm2(env: Environment, before: Seq<char>, after: Seq<char>)
    requires
        env.lc_terminal matches Some(terminal) && terminal@ == before + "iTerm"@ + after,
    ensures
        iterm2_if(hints_at_iterm2(env)) == Some(ProtocolType::Iterm2),
{
    what_is_inside_occurs(before, "iTerm"@, after);
}

/// Nothing but these names hints at iTerm2.
pub proof fn nothing_else_hints_at_iterm2(env: Environment)
    ensures
        iterm2_if(hints_at_iterm2(env)) is Some ==> {
            ||| env.lc_terminal matches Some(terminal) && occurs(terminal@, "iTerm"@)
            ||| env.term_program matches Some(program) && (occurs(program@, "iTerm"@) || occurs(
                program@,
                "WezTerm"@,
            ) || occurs(program@, "mintty"@) || occurs(program@, "vscode"@) || occurs(
                program@,
                "Tabby"@,
            ) || occurs(program@, "Hyper"@) || occurs(program@, "rio"@) || occurs(
                program@,
                "Bobcat"@,
            ) || occurs(program@, "WarpTerminal"@))
        },
{
}

/// The environment hints at iTerm2 where tmux's outer terminal or the terminal itself does.
pub proof fn either_hint_is_enough(env: Environment)
    ensures
        iterm2_if(hints_at_outer_iterm2(env)) == Some(ProtocolType::Iterm2) ==> hinted(env) == Some(
            ProtocolType::Iterm2,
        ),
        iterm2_if(hints_at_iterm2(env)) == Some(ProtocolType::Iterm2) ==> hinted(env) == Some(
            ProtocolType::Iterm2,
        ),
        iterm2_if(hints_at_outer_iterm2(env)) is None && iterm2_if(hints_at_iterm2(env)) is None
            ==> hinted(env) is None,
{
}

/// WezTerm and Konsole, each told by a variable that is not empty, are not asked for kitty and
/// sixel. Every other terminal is asked as the caller wants.
pub proof fn what_is_left_out(env: Environment, blacklist: Seq<ProtocolType>)
    ensures
        (env.wezterm_executable matches Some(path) && path@.len() > 0) ==> left_out(env, blacklist)
            == seq![ProtocolType::Kitty, ProtocolType::Sixel],
        (env.konsole_version matches Some(version) && version@.len() > 0) ==> left_out(
            env,
            blacklist,
        ) == seq![ProtocolType::Kitty, ProtocolType::Sixel],
        (env.wezterm_executable matches Some(path) ==> path@.len() == 0) && (
        env.konsole_version matches Some(version) ==> version@.len() == 0) ==> left_out(
            env,
            blacklist,
        ) == blacklist,
{
}

} // verus!
