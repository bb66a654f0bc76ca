//! Detection of terminal graphics protocols, and the half block encoding of images.
//!
//! The library holds the decisions: what to ask the terminal, what its replies mean, which
//! protocol follows from them, and how pixels become half blocks. Reading and writing the
//! terminal is left to its callers.

pub mod base64;
pub mod errors;
pub mod images;
pub mod picker;
pub mod protocol;
pub mod text;
pub mod text_laws;
pub mod types;

pub use types::{FontSize, Rgba, Size, Winsize};
