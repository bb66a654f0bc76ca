//! What images become for the terminal.
pub mod halfblocks;
