//! The span of a node bracketed by two delimiter tokens, such as
//! parentheses, braces or brackets.

use vstd::prelude::*;

use crate::tokenizer::{Position, TokenReference};

verus! {

/// The pair of delimiter token references bracketing a node.
#[derive(Debug, PartialEq)]
pub struct ContainedSpan {
    pub tokens: (TokenReference, TokenReference),
}

impl ContainedSpan {
    /// Brackets a node between `start` and `end`.
    pub fn new(start: TokenReference, end: TokenReference) -> (r: Self)
        ensures
            r.tokens.0 == start,
            r.tokens.1 == end,
    {
        ContainedSpan { tokens: (start, end) }
    }

    /// The two delimiter token references.
    pub fn tokens(&self) -> (r: (&TokenReference, &TokenReference))
        ensures
            r.0 == self.tokens.0,
            r.1 == self.tokens.1,
    {
        (&self.tokens.0, &self.tokens.1)
    }

    /// The position where the opening delimiter starts.
    pub fn start_position(&self) -> (r: &Position)
        ensures
            r == self.tokens.0.token.start_position,
    {
        &self.tokens.0.token.start_position
    }

    /// The position just after the closing delimiter.
    pub fn end_position(&self) -> (r: &Position)
        ensures
            r == self.tokens.1.token.end_position,
    {
        &self.tokens.1.token.end_position
    }
}

} // verus!
