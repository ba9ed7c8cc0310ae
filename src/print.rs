//! Printing a specification back: each node yields the tokens it was read
//! from, delimiters and separators included.
use vstd::prelude::*;
use crate::ast::{
    CaseArgs, CaseArgsV, FnArgs, FnArgsV, ReturnType, Separator, Span, TestCase, TestCaseV,
    TestHelper, TestHelperV,
};
use crate::emit::{push_at, push_span, push_spans, slice, slices, token_at};
use crate::token::{toks_view, Tok, TokV};
use vstd::seq_lib::lemma_concat_associative;

verus! {

pub open spec fn return_type_tokens(b: Seq<TokV>, r: ReturnType) -> Seq<TokV> {
    token_at(b, r.arrow as int) + token_at(b, r.arrow + 1) + slice(b, r.ty)
}

pub open spec fn opt_return_type_tokens(b: Seq<TokV>, r: Option<ReturnType>) -> Seq<TokV> {
    match r {
        Some(t) => return_type_tokens(b, t),
        None => seq![],
    }
}

/// The spans' tokens, each after the token that ends the one before it (the
/// comma between two arguments).
pub open spec fn listed(b: Seq<TokV>, spans: Seq<Span>) -> Seq<TokV>
    decreases spans.len(),
{
    if spans.len() == 0 {
        seq![]
    } else if spans.len() == 1 {
        slice(b, spans[0])
    } else {
        listed(b, spans.drop_last()) + token_at(b, spans.drop_last().last().end as int) + slice(
            b,
            spans.last(),
        )
    }
}

pub open spec fn fn_args_tokens(b: Seq<TokV>, a: FnArgsV) -> Seq<TokV> {
    token_at(b, a.open as int) + listed(b, a.args) + token_at(b, a.close as int)
}

pub open spec fn opt_fn_args_tokens(b: Seq<TokV>, a: Option<FnArgsV>) -> Seq<TokV> {
    match a {
        Some(x) => fn_args_tokens(b, x),
        None => seq![],
    }
}

pub open spec fn case_args_tokens(b: Seq<TokV>, c: CaseArgsV) -> Seq<TokV> {
    token_at(b, c.open as int) + slices(b, c.attrs) + fn_args_tokens(b, c.args) + opt_return_type_tokens(
        b,
        c.return_type,
    ) + token_at(b, c.close as int)
}

pub open spec fn test_case_tokens(b: Seq<TokV>, t: TestCaseV) -> Seq<TokV> {
    token_at(b, t.fn_name as int) + token_at(b, t.fn_name + 1) + case_args_tokens(b, t.args)
}

/// The token after a case: the comma that may follow it.
pub open spec fn after_case(b: Seq<TokV>, t: TestCaseV) -> Seq<TokV> {
    token_at(b, t.args.close + 1)
}

/// The cases' tokens, the comma after each but the last between them.
pub open spec fn cases_tokens(b: Seq<TokV>, cs: Seq<TestCaseV>) -> Seq<TokV>
    decreases cs.len(),
{
    if cs.len() == 0 {
        seq![]
    } else if cs.len() == 1 {
        test_case_tokens(b, cs[0])
    } else {
        cases_tokens(b, cs.drop_last()) + after_case(b, cs.drop_last().last()) + test_case_tokens(
            b,
            cs.last(),
        )
    }
}

pub open spec fn test_helper_tokens(b: Seq<TokV>, h: TestHelperV) -> Seq<TokV> {
    slices(b, h.static_attrs) + token_at(b, h.separator.at as int) + slice(b, h.helper)
        + opt_fn_args_tokens(b, h.static_args) + opt_return_type_tokens(b, h.static_return_type)
        + token_at(b, h.farrow as int) + token_at(b, h.farrow + 1) + token_at(b, h.open as int)
        + cases_tokens(b, h.cases) + (if h.trailing_comma && h.cases.len() > 0 {
        after_case(b, h.cases.last())
    } else {
        seq![]
    }) + token_at(b, h.close as int)
}

impl ReturnType {
    /// Appends `-> Type` as read from `b`.
    pub fn to_tokens(&self, b: &Vec<Tok>, out: &mut Vec<Tok>)
        ensures
            toks_view(final(out)@) == toks_view(old(out)@) + return_type_tokens(toks_view(b@), *self),
    {
        let ghost start = toks_view(out@);
        push_at(out, b, self.arrow);
        if self.arrow < b.len() {
            push_at(out, b, self.arrow + 1);
        } else {
            assert(token_at(toks_view(b@), self.arrow + 1) =~= seq![]);
        }
        push_span(out, b, self.ty);
        assert(toks_view(out@) =~= start + return_type_tokens(toks_view(b@), *self));
    }
}

fn push_opt_return_type(r: &Option<ReturnType>, b: &Vec<Tok>, out: &mut Vec<Tok>)
    ensures
        toks_view(final(out)@) == toks_view(old(out)@) + opt_return_type_tokens(toks_view(b@), *r),
{
    match r {
        Some(t) => t.to_tokens(b, out),
        None => {
            assert(toks_view(out@) =~= toks_view(out@) + seq![]);
        },
    }
}

impl FnArgs {
    /// Appends `( arg, ... )` as read from `b`.
    pub fn to_tokens(&self, b: &Vec<Tok>, out: &mut Vec<Tok>)
        ensures
            toks_view(final(out)@) == toks_view(old(out)@) + fn_args_tokens(toks_view(b@), self@),
    {
        let ghost tb = toks_view(b@);
        let ghost start = toks_view(out@);
        push_at(out, b, self.open);
        let mut i: usize = 0;
        while i < self.args.len()
            invariant
                i <= self.args@.len(),
                tb == toks_view(b@),
                toks_view(out@) == start + token_at(tb, self.open as int) + listed(
                    tb,
                    self.args@.subrange(0, i as int),
                ),
            decreases self.args@.len() - i,
        {
            let ghost before = toks_view(out@);
            let ghost pre = self.args@.subrange(0, i as int);
            let ghost cur = self.args@.subrange(0, i + 1);
            assert(cur.drop_last() =~= pre);
            assert(cur.last() == self.args@[i as int]);
            if i > 0 {
                push_at(out, b, self.args[i - 1].end);
                push_span(out, b, self.args[i]);
                assert(pre.last() == self.args@[i - 1]);
                assert(listed(tb, cur) == listed(tb, pre) + token_at(tb, self.args@[i - 1].end as int)
                    + slice(tb, self.args@[i as int]));
                assert(toks_view(out@) =~= start + token_at(tb, self.open as int) + listed(tb, cur));
            } else {
                push_span(out, b, self.args[i]);
                assert(listed(tb, cur) == slice(tb, self.args@[0]));
                assert(toks_view(out@) =~= start + token_at(tb, self.open as int) + listed(tb, cur));
            }
            i = i + 1;
        }
        assert(self.args@.subrange(0, i as int) =~= self.args@);
        push_at(out, b, self.close);
        assert(toks_view(out@) =~= start + fn_args_tokens(tb, self@));
    }
}

impl Separator {
    /// Appends the keyword as read from `b`.
    pub fn to_tokens(&self, b: &Vec<Tok>, out: &mut Vec<Tok>)
        ensures
            toks_view(final(out)@) == toks_view(old(out)@) + token_at(toks_view(b@), self.at as int),
    {
        push_at(out, b, self.at);
    }
}

impl CaseArgs {
    /// Appends `{ #[attr]... (args) -> Type }` as read from `b`.
    pub fn to_tokens(&self, b: &Vec<Tok>, out: &mut Vec<Tok>)
        ensures
            toks_view(final(out)@) == toks_view(old(out)@) + case_args_tokens(toks_view(b@), self@),
    {
        let ghost tb = toks_view(b@);
        let ghost start = toks_view(out@);
        push_at(out, b, self.open);
        push_spans(out, b, &self.attrs);
        self.args.to_tokens(b, out);
        push_opt_return_type(&self.return_type, b, out);
        push_at(out, b, self.close);
        assert(toks_view(out@) =~= start + case_args_tokens(tb, self@));
    }
}

impl TestCase {
    /// Appends `name: { ... }` as read from `b`.
    pub fn to_tokens(&self, b: &Vec<Tok>, out: &mut Vec<Tok>)
        ensures
            toks_view(final(out)@) == toks_view(old(out)@) + test_case_tokens(toks_view(b@), self@),
    {
        let ghost tb = toks_view(b@);
        let ghost start = toks_view(out@);
        push_at(out, b, self.fn_name);
        if self.fn_name < b.len() {
            push_at(out, b, self.fn_name + 1);
        } else {
            assert(token_at(tb, self.fn_name + 1) =~= seq![]);
        }
        self.args.to_tokens(b, out);
        assert(toks_view(out@) =~= start + test_case_tokens(tb, self@));
    }
}

/// Appends the token after the case `t`, if there is one.
fn push_after_case(t: &TestCase, b: &Vec<Tok>, out: &mut Vec<Tok>)
    ensures
        toks_view(final(out)@) == toks_view(old(out)@) + after_case(toks_view(b@), t@),
{
    if t.args.close < b.len() {
        push_at(out, b, t.args.close + 1);
    } else {
        assert(after_case(toks_view(b@), t@) =~= seq![]);
        assert(toks_view(out@) =~= toks_view(out@) + seq![]);
    }
}

/// Appends the cases, the comma after each but the last between them.
fn push_cases(cases: &Vec<TestCase>, b: &Vec<Tok>, out: &mut Vec<Tok>)
    ensures
        toks_view(final(out)@) == toks_view(old(out)@) + cases_tokens(
            toks_view(b@),
            cases@.map_values(|t: TestCase| t@),
        ),
{
    let ghost tb = toks_view(b@);
    let ghost start = toks_view(out@);
    let ghost cs = cases@.map_values(|t: TestCase| t@);
    let mut i: usize = 0;
    while i < cases.len()
        invariant
            i <= cases@.len(),
            tb == toks_view(b@),
            cs == cases@.map_values(|t: TestCase| t@),
            toks_view(out@) == start + cases_tokens(tb, cs.subrange(0, i as int)),
        decreases cases@.len() - i,
    {
        let ghost pre = cs.subrange(0, i as int);
        let ghost cur = cs.subrange(0, i + 1);
        assert(cur.drop_last() =~= pre);
        assert(cur.last() == cs[i as int]);
        if i > 0 {
            push_after_case(&cases[i - 1], b, out);
            cases[i].to_tokens(b, out);
            assert(pre.last() == cs[i - 1]);
            assert(cases_tokens(tb, cur) == cases_tokens(tb, pre) + after_case(tb, cs[i - 1])
                + test_case_tokens(tb, cs[i as int]));
            assert(toks_view(out@) =~= start + cases_tokens(tb, cur));
        } else {
            cases[i].to_tokens(b, out);
            assert(cases_tokens(tb, cur) == test_case_tokens(tb, cs[0]));
            assert(toks_view(out@) =~= start + cases_tokens(tb, cur));
        }
        i = i + 1;
    }
    assert(cs.subrange(0, i as int) =~= cs);
}

impl TestHelper {
    /// Appends the whole specification as read from `b`.
    pub fn to_tokens(&self, b: &Vec<Tok>, out: &mut Vec<Tok>)
        ensures
            toks_view(final(out)@) == toks_view(old(out)@) + test_helper_tokens(toks_view(b@), self@),
    {
        let ghost tb = toks_view(b@);
        let ghost start = toks_view(out@);
        let ghost h = self@;
        push_spans(out, b, &self.static_attrs);
        let ghost p = slices(tb, h.static_attrs);
        self.separator.to_tokens(b, out);
        proof {
            lemma_concat_associative(start, p, token_at(tb, h.separator.at as int));
            p = p + token_at(tb, h.separator.at as int);
        }
        push_span(out, b, self.helper);
        proof {
            lemma_concat_associative(start, p, slice(tb, h.helper));
            p = p + slice(tb, h.helper);
        }
        match &self.static_args {
            Some(a) => a.to_tokens(b, out),
            None => {
                assert(toks_view(out@) =~= toks_view(out@) + seq![]);
            },
        }
        proof {
            lemma_concat_associative(start, p, opt_fn_args_tokens(tb, h.static_args));
            p = p + opt_fn_args_tokens(tb, h.static_args);
        }
        push_opt_return_type(&self.static_return_type, b, out);
        proof {
            lemma_concat_associative(start, p, opt_return_type_tokens(tb, h.static_return_type));
            p = p + opt_return_type_tokens(tb, h.static_return_type);
        }
        push_at(out, b, self.farrow);
        proof {
            lemma_concat_associative(start, p, token_at(tb, h.farrow as int));
            p = p + token_at(tb, h.farrow as int);
        }
        if self.farrow < b.len() {
            push_at(out, b, self.farrow + 1);
        } else {
            assert(token_at(tb, self.farrow + 1) =~= seq![]);
            assert(toks_view(out@) =~= toks_view(out@) + seq![]);
        }
        proof {
            lemma_concat_associative(start, p, token_at(tb, h.farrow + 1));
            p = p + token_at(tb, h.farrow + 1);
        }
        push_at(out, b, self.open);
        proof {
            lemma_concat_associative(start, p, token_at(tb, h.open as int));
            p = p + token_at(tb, h.open as int);
        }
        push_cases(&self.cases, b, out);
        proof {
            lemma_concat_associative(start, p, cases_tokens(tb, h.cases));
            p = p + cases_tokens(tb, h.cases);
        }
        let ghost tail = if h.trailing_comma && h.cases.len() > 0 {
            after_case(tb, h.cases.last())
        } else {
            seq![]
        };
        if self.trailing_comma && self.cases.len() > 0 {
            push_after_case(&self.cases[self.cases.len() - 1], b, out);
        } else {
            assert(toks_view(out@) =~= toks_view(out@) + seq![]);
        }
        proof {
            lemma_concat_associative(start, p, tail);
            p = p + tail;
        }
        push_at(out, b, self.close);
        proof {
            lemma_concat_associative(start, p, token_at(tb, h.close as int));
            p = p + token_at(tb, h.close as int);
        }
        assert(p == test_helper_tokens(tb, h));
    }
}

} // verus!
