//! JSX tokenization: a character-driven state machine that turns JSX-like
//! markup into a flat sequence of typed tokens.

use vstd::prelude::*;

pub mod laws;
pub mod machine;
pub mod strings;
pub mod token;
pub mod tokenizer;

pub use tokenizer::{tokenizer, Token, TokenType, TokenizerError};

verus! {

/// Whether `input` tokenizes without an error.
pub fn is_valid_jsx(input: &str) -> (valid: bool)
    ensures
        valid == machine::spec_tokenize(input@) is Ok,
{
    tokenizer(input).is_ok()
}

} // verus!
