//! Properties of reading and lowering a specification.
use vstd::prelude::*;
use crate::ast::{CaseArgsV, EmptyArgs, ErrorKind, FnArgsV, ParseError, Span, TestCaseV, TestHelperV};
use crate::parse::{
    at_ident, at_open, at_punct, attrs_from, case_args_at, case_block_at, err, fn_args_at, in_range,
    test_case_at,
};
use crate::resolve::{resolved, static_args_of, type_of};
use crate::token::{close_of, is_close, Delim, TokV};

verus! {

/// The units come in the order of the cases, one for each, named as it.
pub proof fn lemma_case_order(h: TestHelperV)
    ensures
        resolved(h).len() == h.cases.len(),
        forall|i: int| 0 <= i < h.cases.len() ==> #[trigger] resolved(h)[i].name == h.cases[i].fn_name,
{
}

/// A unit's attributes are the block-wide ones followed by the case's own,
/// duplicates kept.
pub proof fn lemma_attribute_concatenation(h: TestHelperV)
    ensures
        forall|i: int|
            0 <= i < h.cases.len() ==> #[trigger] resolved(h)[i].attrs == h.static_attrs
                + h.cases[i].args.attrs,
{
}

/// A unit's arguments are the block-wide ones, if any, followed by the
/// case's own.
pub proof fn lemma_argument_concatenation(h: TestHelperV)
    ensures
        forall|i: int|
            0 <= i < h.cases.len() ==> #[trigger] resolved(h)[i].args == static_args_of(h)
                + h.cases[i].args.args.args,
        h.static_args is None ==> forall|i: int|
            0 <= i < h.cases.len() ==> #[trigger] resolved(h)[i].args == h.cases[i].args.args.args,
{
    assert forall|i: int| 0 <= i < h.cases.len() && h.static_args is None implies #[trigger] resolved(
        h,
    )[i].args == h.cases[i].args.args.args by {
        assert(static_args_of(h) + h.cases[i].args.args.args =~= h.cases[i].args.args.args);
    }
}

/// A unit returns the case's type if it gives one, else the block's, else
/// nothing.
pub proof fn lemma_return_type_override(h: TestHelperV)
    ensures
        forall|i: int|
            0 <= i < h.cases.len() ==> #[trigger] resolved(h)[i].return_type == match h.cases[i].args.return_type {
                Some(t) => Some(t.ty),
                None => type_of(h.static_return_type),
            },
{
}

/// Braces that hold no case are an error of their own.
pub proof fn lemma_empty_case_list(b: Seq<TokV>, p: int, bound: int)
    requires
        at_open(b, p, bound, Delim::Brace),
        in_range(b, p + 1, bound),
        is_close(b[p + 1]),
    ensures
        case_block_at(b, p, bound) == Err::<(Seq<TestCaseV>, bool, int), _>(
            err(ErrorKind::EmptyCaseList, p + 1),
        ),
{
    assert(close_of(b, p, bound) == Some(p + 1));
}

/// A case body that ends after its attributes gives no arguments: an error
/// of its own.
pub proof fn lemma_empty_case_args(b: Seq<TokV>, p: int, bound: int, c: int, attrs: Seq<Span>)
    requires
        at_open(b, p, bound, Delim::Brace),
        close_of(b, p, bound) == Some(c),
        attrs_from(b, p + 1, c, seq![]) == Ok::<_, ParseError>((attrs, c)),
    ensures
        case_args_at(b, p, bound) == Err::<(CaseArgsV, int), _>(err(ErrorKind::EmptyArgList(EmptyArgs::NoParentheses), c)),
{
}

/// A case whose braces hold nothing gives no arguments: an error of its own.
pub proof fn lemma_empty_case_body(b: Seq<TokV>, p: int, bound: int)
    requires
        at_ident(b, p, bound),
        at_punct(b, p + 1, bound, ':'),
        at_open(b, p + 2, bound, Delim::Brace),
        in_range(b, p + 3, bound),
        is_close(b[p + 3]),
    ensures
        test_case_at(b, p, bound) == Err::<(TestCaseV, int), _>(err(ErrorKind::EmptyArgList(EmptyArgs::NoParentheses), p + 3)),
{
    assert(close_of(b, p + 2, bound) == Some(p + 3));
    assert(attrs_from(b, p + 3, p + 3, seq![]) == Ok::<_, ParseError>((Seq::<Span>::empty(), p + 3)));
}

/// Empty parentheses are no argument list.
pub proof fn lemma_empty_parens(b: Seq<TokV>, p: int, bound: int)
    requires
        at_open(b, p, bound, Delim::Paren),
        in_range(b, p + 1, bound),
        is_close(b[p + 1]),
    ensures
        fn_args_at(b, p, bound) == Err::<(FnArgsV, int), _>(err(ErrorKind::EmptyArgList(EmptyArgs::EmptyParentheses), p + 1)),
{
    assert(close_of(b, p, bound) == Some(p + 1));
}

} // verus!
