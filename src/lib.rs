//! Interactive line editing for a text-literal formatter: a line editor that
//! keeps a modelled terminal row in step with its buffer, the session that
//! routes key and paste events to it, and the formatting of the collected
//! text as a string literal.

pub mod prompt;
pub mod screen;
pub mod editor;
pub mod text;
pub mod session;
pub mod literal;
pub mod cli;
