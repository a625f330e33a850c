//! Verified building blocks of a small QuickJS runtime: a JavaScript `Date`
//! over a millisecond timestamp, console formatting of values, and REPL input
//! handling.
pub mod calendar;
pub mod clock;
pub mod date;
pub mod parse;
pub mod format;
pub mod text;
pub mod repl_input;
pub mod console;
pub mod headers;
pub mod fetch;
pub mod handles;
pub mod session;
