//! Expands a batch of parameterised test cases into one test function each.
//!
//! A specification names a helper, optional block-wide attributes, arguments
//! and return type, and a list of named cases with their own. Each case
//! becomes a `#[test]` function that calls the helper with the block-wide
//! arguments followed by the case's.
use vstd::prelude::*;

pub mod ast;
pub mod emit;
pub mod laws;
pub mod parse;
pub mod print;
pub mod resolve;
pub mod roundtrip;
pub mod token;

use crate::ast::{ParseError, TestHelper};
use crate::emit::units_tokens;
use crate::parse::test_helper_of;
use crate::resolve::resolved;
use crate::token::{toks_view, Tok, TokV};

verus! {

/// The test functions that the tokens `b` stand for, or the error of
/// reading them.
pub open spec fn expansion_of(b: Seq<TokV>) -> Result<Seq<TokV>, ParseError> {
    match test_helper_of(b) {
        Ok(h) => Ok(units_tokens(b, resolved(h))),
        Err(x) => Err(x),
    }
}

pub open spec fn expansion(b: Seq<Tok>) -> Result<Seq<TokV>, ParseError> {
    expansion_of(toks_view(b))
}

/// Reads a specification from `tokens` and returns the test functions it
/// stands for; on an error, no function at all.
pub fn test_gen(tokens: &Vec<Tok>) -> (r: Result<Vec<Tok>, ParseError>)
    ensures
        match r {
            Ok(out) => expansion(tokens@) == Ok::<_, ParseError>(toks_view(out@)),
            Err(x) => expansion(tokens@) == Err::<Seq<TokV>, _>(x),
        },
{
    match TestHelper::parse(tokens) {
        Ok(h) => Ok(h.restructure(tokens)),
        Err(x) => Err(x),
    }
}

} // verus!
