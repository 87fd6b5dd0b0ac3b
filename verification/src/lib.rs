//! A lossless parser for Lua 5.1 source text.
//!
//! Source text is tokenized, trivia (whitespace and comments) is attached to
//! the significant tokens around it, and a backtracking recursive-descent
//! parser builds a tree that can be rendered back to the original text byte
//! for byte.

pub mod ast;
pub mod text;
pub mod tokenizer;
pub mod util;
pub mod visitors;

use vstd::prelude::*;

use crate::ast::{block_text, block_wf, lemma_extract_text, spec_extract, Ast};
use crate::tokenizer::{
    lemma_tokenize_text, refs_text, refs_view, spec_tokenize, token_ref_text, TokenModel,
    TokenizerError,
};

verus! {

/// Entry point errors: either the tokenizer or the parser failed.
#[derive(Clone, Debug, PartialEq)]
pub enum Error {
    /// The tree could not be built from the tokens.
    AstError(ast::AstError),
    /// The source text could not be tokenized.
    TokenizerError(tokenizer::TokenizerError),
}

/// Parses source text into a tree.  On success, rendering the tree's
/// statements followed by its end-of-file reference reproduces the source
/// exactly, character for character: the round trip is the identity.
pub fn parse(code: &str) -> (r: Result<ast::Ast, Error>)
    ensures
        spec_tokenize(code@) matches Ok(m) && spec_extract(m).len() == 1 ==> r is Ok,
        match r {
            Ok(ast) => {
                &&& spec_tokenize(code@) matches Ok(m) && refs_view(ast.tokens@) == spec_extract(
                    m,
                )
                &&& ast.wf()
                &&& block_wf(ast.nodes)
                &&& block_text(ast.nodes) + token_ref_text(ast.tokens@[ast.tokens@.len() - 1]@)
                    == code@
            },
            Err(Error::TokenizerError(e)) => spec_tokenize(code@) == Err::<
                Seq<TokenModel>,
                TokenizerError,
            >(e),
            Err(Error::AstError(e)) => spec_tokenize(code@) is Ok && e is UnexpectedToken,
        },
{
    match tokenizer::tokens(code) {
        Err(e) => Err(Error::TokenizerError(e)),
        Ok(toks) => {
            proof {
                lemma_tokenize_text(code@);
            }
            match Ast::from_tokens(toks) {
                Ok(ast) => Ok(ast),
                Err(e) => Err(Error::AstError(e)),
            }
        },
    }
}

/// The round-trip law: any source text that tokenizes successfully is
/// reproduced exactly by the concatenated text of its attached token
/// references — nothing is lost between the source and the tree's
/// token-reference sequence.
pub proof fn lemma_round_trip(code: Seq<char>)
    requires
        code.len() <= usize::MAX,
    ensures
        spec_tokenize(code) matches Ok(m) ==> refs_text(spec_extract(m)) == code,
{
    lemma_tokenize_text(code);
    match spec_tokenize(code) {
        Ok(m) => {
            lemma_extract_text(m, 0);
            assert(m.subrange(0, m.len() as int) =~= m);
        },
        Err(_) => {},
    }
}

} // verus!
