//! A one-pass translator from the stack-oriented VM language of the Hack
//! platform to Hack assembly.
//!
//! [`parser`] turns one line of VM source into an [`parser::Operation`];
//! [`translator`] lowers a sequence of operations into assembly lines.
//! Both are pure functions, specified over sequences of characters.

pub mod parser;
pub mod translator;
