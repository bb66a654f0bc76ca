//! What can go wrong.
use vstd::prelude::*;

verus! {

/// Why a terminal could not be queried.
#[derive(Debug, PartialEq)]
pub enum Errors {
    /// The size of a cell could not be found out.
    NoFontSize,
    /// The terminal has not answered.
    NoStdinResponse,
    /// The terminal has answered without reporting anything.
    NoCap,
    /// The terminal could not be read or written.
    Io(String),
}

} // verus!
