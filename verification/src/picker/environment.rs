//! What the environment of the process hints at.
use vstd::prelude::*;

use crate::picker::cap_parser::QueryStdioOptions;
use crate::picker::ProtocolType;
use crate::text;

verus! {

/// The variables of the environment that hint at the terminal, each as far as it is set.
#[derive(Clone, Debug, Default)]
pub struct Environment {
    /// `TERM`
    pub term: Option<String>,
    /// `TERM_PROGRAM`
    pub term_program: Option<String>,
    /// `LC_TERMINAL`
    pub lc_terminal: Option<String>,
    /// `ITERM_SESSION_ID`
    pub iterm_session_id: Option<String>,
    /// `WEZTERM_EXECUTABLE`
    pub wezterm_executable: Option<String>,
    /// `KONSOLE_VERSION`
    pub konsole_version: Option<String>,
}

/// The variable is set, and not to the empty text.
pub open spec fn is_set(variable: Option<String>) -> bool {
    variable matches Some(value) && value@.len() > 0
}

/// The terminal is inside of tmux.
pub open spec fn inside_tmux(env: Environment) -> bool {
    ||| env.term matches Some(term) && "tmux"@.is_prefix_of(term@)
    ||| env.term_program matches Some(program) && program@ == "tmux"@
}

/// A program of the terminal that shows images with the protocol of iTerm2.
pub open spec fn speaks_iterm2(program: Seq<char>) -> bool {
    ||| text::occurs(program, "iTerm"@)
    ||| text::occurs(program, "WezTerm"@)
    ||| text::occurs(program, "mintty"@)
    ||| text::occurs(program, "vscode"@)
    ||| text::occurs(program, "Tabby"@)
    ||| text::occurs(program, "Hyper"@)
    ||| text::occurs(program, "rio"@)
    ||| text::occurs(program, "Bobcat"@)
    ||| text::occurs(program, "WarpTerminal"@)
}

/// The environment hints at a terminal with the protocol of iTerm2.
pub open spec fn hints_at_iterm2(env: Environment) -> bool {
    ||| env.term_program matches Some(program) && speaks_iterm2(program@)
    ||| env.lc_terminal matches Some(terminal) && text::occurs(terminal@, "iTerm"@)
}

/// Inside of tmux, the environment hints at an outer terminal with the protocol of iTerm2.
pub open spec fn hints_at_outer_iterm2(env: Environment) -> bool {
    inside_tmux(env) && (is_set(env.iterm_session_id) || is_set(env.wezterm_executable))
}

/// The protocol of iTerm2, or none.
pub open spec fn iterm2_if(condition: bool) -> Option<ProtocolType> {
    if condition {
        Some(ProtocolType::Iterm2)
    } else {
        None
    }
}

/// The terminal is one whose kitty graphics and sixel are better not used.
pub open spec fn mistrusted(env: Environment) -> bool {
    is_set(env.wezterm_executable) || is_set(env.konsole_version)
}

/// Whether the variable is set, and not to the empty text.
fn not_empty(variable: &Option<String>) -> (r: bool)
    ensures
        r == is_set(*variable),
{
    match variable {
        Some(value) => !value.as_str().is_empty(),
        None => false,
    }
}

/// Whether the terminal is inside of tmux, and, if it is, the protocol that the outer terminal is
/// hinted to have.
///
/// Kitty is not found out so: what kitty sets in the environment is often stale inside of tmux,
/// and a query reaches it there too.
pub fn detect_tmux_and_outer_protocol_from_env(env: &Environment) -> (r: (
    bool,
    Option<ProtocolType>,
))
    ensures
        r.0 == inside_tmux(*env),
        r.1 == iterm2_if(hints_at_outer_iterm2(*env)),
{
    let by_term = match &env.term {
        Some(term) => text::starts_with(&text::chars_of(term.as_str()), "tmux"),
        None => false,
    };
    let by_program = match &env.term_program {
        Some(program) => text::eq_str(&text::chars_of(program.as_str()), "tmux"),
        None => false,
    };
    if !by_term && !by_program {
        return (false, None);
    }
    if not_empty(&env.iterm_session_id) || not_empty(&env.wezterm_executable) {
        return (true, Some(ProtocolType::Iterm2));
    }
    (true, None)
}

/// Whether a program of the terminal shows images with the protocol of iTerm2.
fn is_iterm2_program(program: &str) -> (r: bool)
    ensures
        r == speaks_iterm2(program@),
{
    text::contains(program, "iTerm") || text::contains(program, "WezTerm") || text::contains(
        program,
        "mintty",
    ) || text::contains(program, "vscode") || text::contains(program, "Tabby") || text::contains(
        program,
        "Hyper",
    ) || text::contains(program, "rio") || text::contains(program, "Bobcat") || text::contains(
        program,
        "WarpTerminal",
    )
}

/// The protocol of iTerm2, if the environment hints at it.
pub fn iterm2_from_env(env: &Environment) -> (r: Option<ProtocolType>)
    ensures
        r == iterm2_if(hints_at_iterm2(*env)),
{
    if let Some(program) = &env.term_program {
        if is_iterm2_program(program.as_str()) {
            return Some(ProtocolType::Iterm2);
        }
    }
    if let Some(terminal) = &env.lc_terminal {
        if text::contains(terminal.as_str(), "iTerm") {
            return Some(ProtocolType::Iterm2);
        }
    }
    None
}

/// The protocols that a terminal is not asked for.
pub open spec fn left_out(env: Environment, blacklist: Seq<ProtocolType>) -> Seq<ProtocolType> {
    if mistrusted(env) {
        seq![ProtocolType::Kitty, ProtocolType::Sixel]
    } else {
        blacklist
    }
}

/// The options to query the terminal with.
///
/// WezTerm and Konsole are not asked for kitty graphics, of which they lack the placeholders, nor
/// for sixel, which is flawed in Konsole and worse than the protocol of iTerm2 in WezTerm.
pub fn options_for_env(env: &Environment, options: QueryStdioOptions) -> (r: QueryStdioOptions)
    ensures
        r.blacklist_protocols@ == left_out(*env, options.blacklist_protocols@),
        r.timeout == options.timeout,
        r.text_sizing_protocol == options.text_sizing_protocol,
        r.terminal_background_color_osc == options.terminal_background_color_osc,
        r.kitty_compression == options.kitty_compression,
        r.kitty_shared_memory_object == options.kitty_shared_memory_object,
        r.kitty_shared_memory_probe == options.kitty_shared_memory_probe,
{
    let mut options = options;
    if not_empty(&env.wezterm_executable) || not_empty(&env.konsole_version) {
        options.blacklist_protocols = vec![ProtocolType::Kitty, ProtocolType::Sixel];
    }
    options
}

} // verus!
