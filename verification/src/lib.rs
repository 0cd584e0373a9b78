//! Time-based one-time codes for a set of accounts: the code generator,
//! the account sources, and the state of the live display.

pub mod acc;
pub mod parse;
pub mod ui;
