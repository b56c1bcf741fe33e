//! Tokenizer and inline-math support for a circuit-description command
//! language: a parameter tokenizer with quoting, comments and variable
//! substitution, a variable table with an active-variable cursor, and a
//! fixed-depth shift-register operand stack.

use vstd::prelude::*;

pub mod stack;
pub mod text;
pub mod tokenizer;
pub mod vars;

pub use stack::RegisterStack;
pub use tokenizer::DSSParser;
pub use tokenizer::COMMENT_CHAR;
pub use stack::STACK_SIZE;
pub use vars::ParserVar;
pub use vars::VARIABLE_DELIMITER;

verus! {

/// Error value carried by the numeric-conversion layer around this library.
#[derive(Debug)]
pub struct ParserError {
    message: String,
}

impl ParserError {
    /// The message text, as the mathematical value contracts speak of.
    pub closed spec fn message_view(self) -> Seq<char> {
        self.message@
    }

    pub fn new(message: &str) -> (e: Self)
        ensures
            e.message_view() == message@,
    {
        ParserError { message: message.to_owned() }
    }

    /// The stored message text.
    pub fn message(&self) -> (m: &str)
        ensures
            m@ == self.message_view(),
    {
        self.message.as_str()
    }
}

} // verus!
