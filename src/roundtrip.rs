//! Printing what was read gives back the tokens it was read from.
use vstd::prelude::*;
use crate::ast::{Span, TestCaseV, TestHelperV};
use crate::emit::{slice, slices, token_at};
use crate::parse::{
    args_from, attrs_from, case_args_at, case_block_at, cases_from, fn_args_at, helper_path_at,
    opaque_end, opt_fn_args_at, opt_return_type_at, path_rest, return_type_at, separator_at, span,
    test_case_at, test_helper_of, Stop,
};
use crate::print::{
    after_case, case_args_tokens, cases_tokens, fn_args_tokens, listed, opt_fn_args_tokens,
    opt_return_type_tokens, return_type_tokens, test_case_tokens, test_helper_tokens,
};
use crate::expansion_of;
use crate::token::TokV;
use vstd::seq_lib::lemma_concat_associative;

verus! {

proof fn lemma_join(b: Seq<TokV>, i: int, j: int, k: int)
    requires
        0 <= i <= j <= k <= b.len(),
    ensures
        b.subrange(i, j) + b.subrange(j, k) == b.subrange(i, k),
{
    assert(b.subrange(i, j) + b.subrange(j, k) =~= b.subrange(i, k));
}

proof fn lemma_token(b: Seq<TokV>, i: int)
    requires
        0 <= i < b.len(),
    ensures
        token_at(b, i) == b.subrange(i, i + 1),
{
    assert(token_at(b, i) =~= b.subrange(i, i + 1));
}

proof fn lemma_slice(b: Seq<TokV>, i: int, j: int)
    requires
        0 <= i <= j <= b.len() <= usize::MAX,
    ensures
        slice(b, span(i, j)) == b.subrange(i, j),
{
}

proof fn lemma_attrs(b: Seq<TokV>, p: int, bound: int, acc: Seq<Span>)
    requires
        0 <= p <= bound <= b.len() <= usize::MAX,
    ensures
        match attrs_from(b, p, bound, acc) {
            Ok((res, n)) => p <= n <= bound && slices(b, res) == slices(b, acc) + b.subrange(p, n),
            Err(_) => true,
        },
    decreases bound - p,
{
    if let Ok((res, n)) = attrs_from(b, p, bound, acc) {
        if n == p && res == acc {
            assert(slices(b, acc) + b.subrange(p, p) =~= slices(b, acc));
        } else {
            let c = close_of_some(b, p + 1, bound);
            let acc2 = acc.push(span(p, c + 1));
            lemma_attrs(b, c + 1, bound, acc2);
            assert(acc2.drop_last() =~= acc);
            lemma_slice(b, p, c + 1);
            lemma_concat_associative(slices(b, acc), b.subrange(p, c + 1), b.subrange(c + 1, n));
            lemma_join(b, p, c + 1, n);
        }
    }
}

/// The closing index that a successful production found at `p`.
spec fn close_of_some(b: Seq<TokV>, p: int, bound: int) -> int {
    match crate::token::close_of(b, p, bound) {
        Some(c) => c,
        None => p,
    }
}

proof fn lemma_opaque_end(b: Seq<TokV>, k: int, bound: int, stop: Stop)
    requires
        0 <= k <= bound <= b.len(),
    ensures
        opaque_end(b, k, bound, stop) matches Ok(e) ==> k <= e <= bound,
    decreases bound - k,
{
    if crate::parse::in_range(b, k, bound) && !crate::parse::at_stop(b, k, bound, stop) {
        if crate::token::is_open(b[k]) {
            if let Some(c) = crate::token::close_of(b, k, bound) {
                lemma_opaque_end(b, c + 1, bound, stop);
            }
        } else if !crate::token::is_close(b[k]) {
            lemma_opaque_end(b, k + 1, bound, stop);
        }
    }
}

pub open spec fn args_rest(b: Seq<TokV>, acc: Seq<Span>, k: int, c: int) -> Seq<TokV> {
    if acc.len() > 0 {
        b.subrange(k - 1, c)
    } else {
        b.subrange(k, c)
    }
}

proof fn lemma_args(b: Seq<TokV>, k: int, c: int, acc: Seq<Span>)
    requires
        1 <= k <= c <= b.len() <= usize::MAX,
        acc.len() > 0 ==> acc.last().end == k - 1,
    ensures
        match args_from(b, k, c, acc) {
            Ok(res) => listed(b, res) == listed(b, acc) + args_rest(b, acc, k, c),
            Err(_) => true,
        },
    decreases c - k,
{
    lemma_opaque_end(b, k, c, Stop::Comma);
    if let Ok(res) = args_from(b, k, c, acc) {
        let e = match opaque_end(b, k, c, Stop::Comma) {
            Ok(e) => e,
            Err(_) => k,
        };
        let acc2 = acc.push(span(k, e));
        assert(acc2.drop_last() =~= acc);
        lemma_slice(b, k, e);
        if acc.len() > 0 {
            lemma_token(b, k - 1);
            lemma_concat_associative(listed(b, acc), b.subrange(k - 1, k), b.subrange(k, e));
            lemma_join(b, k - 1, k, e);
        }
        assert(listed(b, acc2) == listed(b, acc) + args_rest(b, acc, k, e));
        if e < c {
            lemma_args(b, e + 1, c, acc2);
            lemma_concat_associative(listed(b, acc), args_rest(b, acc, k, e), b.subrange(e, c));
            lemma_join(b, if acc.len() > 0 { k - 1 } else { k }, e, c);
        }
    }
}

proof fn lemma_fn_args(b: Seq<TokV>, p: int, bound: int)
    requires
        0 <= p <= bound <= b.len() <= usize::MAX,
    ensures
        match fn_args_at(b, p, bound) {
            Ok((a, n)) => p < n <= bound && fn_args_tokens(b, a) == b.subrange(p, n),
            Err(_) => true,
        },
{
    if let Ok((a, n)) = fn_args_at(b, p, bound) {
        let c = close_of_some(b, p, bound);
        lemma_args(b, p + 1, c, seq![]);
        assert(listed(b, seq![]) =~= seq![]);
        lemma_token(b, p);
        lemma_token(b, c);
        lemma_join(b, p, p + 1, c);
        lemma_join(b, p, c, c + 1);
        assert(listed(b, seq![]) + b.subrange(p + 1, c) =~= b.subrange(p + 1, c));
    }
}

proof fn lemma_return_type(b: Seq<TokV>, p: int, bound: int)
    requires
        0 <= p <= bound <= b.len() <= usize::MAX,
    ensures
        match opt_return_type_at(b, p, bound) {
            Ok((r, n)) => p <= n <= bound && opt_return_type_tokens(b, r) == b.subrange(p, n),
            Err(_) => true,
        },
{
    if let Ok((r, n)) = opt_return_type_at(b, p, bound) {
        if r is None {
            assert(b.subrange(p, p) =~= seq![]);
        } else {
            lemma_opaque_end(b, p + 2, bound, Stop::FatArrow);
            lemma_token(b, p);
            lemma_token(b, p + 1);
            lemma_slice(b, p + 2, n);
            lemma_join(b, p, p + 1, p + 2);
            lemma_join(b, p, p + 2, n);
        }
    }
}

proof fn lemma_case_args(b: Seq<TokV>, p: int, bound: int)
    requires
        0 <= p <= bound <= b.len() <= usize::MAX,
    ensures
        match case_args_at(b, p, bound) {
            Ok((a, n)) => p < n <= bound && a.close + 1 == n && case_args_tokens(b, a) == b.subrange(p, n),
            Err(_) => true,
        },
{
    if let Ok((a, n)) = case_args_at(b, p, bound) {
        let e = close_of_some(b, p, bound);
        lemma_attrs(b, p + 1, e, seq![]);
        let k = match attrs_from(b, p + 1, e, seq![]) {
            Ok((_, k)) => k,
            Err(_) => p,
        };
        lemma_fn_args(b, k, e);
        let k2 = match fn_args_at(b, k, e) {
            Ok((_, k2)) => k2,
            Err(_) => p,
        };
        lemma_return_type(b, k2, e);
        assert(slices(b, seq![]) =~= seq![]);
        assert(slices(b, seq![]) + b.subrange(p + 1, k) =~= b.subrange(p + 1, k));
        lemma_token(b, p);
        lemma_token(b, e);
        let t0 = b.subrange(p, p + 1);
        let t1 = b.subrange(p + 1, k);
        let t2 = b.subrange(k, k2);
        let t3 = b.subrange(k2, e);
        let t4 = b.subrange(e, e + 1);
        assert(t0 + t1 + t2 + t3 + t4 =~= b.subrange(p, e + 1));
    }
}

proof fn lemma_test_case(b: Seq<TokV>, p: int, bound: int)
    requires
        0 <= p <= bound <= b.len() <= usize::MAX,
    ensures
        match test_case_at(b, p, bound) {
            Ok((t, n)) => p < n <= bound && t.args.close + 1 == n && test_case_tokens(b, t) == b.subrange(p, n),
            Err(_) => true,
        },
{
    if let Ok((t, n)) = test_case_at(b, p, bound) {
        lemma_case_args(b, p + 2, bound);
        lemma_token(b, p);
        lemma_token(b, p + 1);
        assert(b.subrange(p, p + 1) + b.subrange(p + 1, p + 2) + b.subrange(p + 2, n) =~= b.subrange(p, n));
    }
}

pub open spec fn trailing_tokens(b: Seq<TokV>, cs: Seq<TestCaseV>, trailing: bool) -> Seq<TokV> {
    if trailing && cs.len() > 0 {
        after_case(b, cs.last())
    } else {
        seq![]
    }
}

pub open spec fn cases_rest(b: Seq<TokV>, acc: Seq<TestCaseV>, k: int, c: int) -> Seq<TokV> {
    if acc.len() > 0 {
        b.subrange(k - 1, c)
    } else {
        b.subrange(k, c)
    }
}

proof fn lemma_cases(b: Seq<TokV>, k: int, c: int, acc: Seq<TestCaseV>)
    requires
        1 <= k <= c <= b.len() <= usize::MAX,
        acc.len() > 0 ==> acc.last().args.close + 2 == k,
    ensures
        match cases_from(b, k, c, acc) {
            Ok((res, trailing)) => res.len() > 0 && cases_tokens(b, res) + trailing_tokens(b, res, trailing)
                == cases_tokens(b, acc) + cases_rest(b, acc, k, c),
            Err(_) => true,
        },
    decreases c - k,
{
    lemma_test_case(b, k, c);
    if let Ok((res, trailing)) = cases_from(b, k, c, acc) {
        let (tc, e) = match test_case_at(b, k, c) {
            Ok(x) => x,
            Err(_) => (acc.last(), k),
        };
        let acc2 = acc.push(tc);
        assert(acc2.drop_last() =~= acc);
        assert(acc2.last() == tc);
        if acc.len() > 0 {
            lemma_token(b, k - 1);
            lemma_concat_associative(cases_tokens(b, acc), b.subrange(k - 1, k), b.subrange(k, e));
            lemma_join(b, k - 1, k, e);
        }
        assert(cases_tokens(b, acc2) == cases_tokens(b, acc) + cases_rest(b, acc, k, e));
        if e >= c {
            assert(cases_tokens(b, acc2) + seq![] =~= cases_tokens(b, acc2));
        } else if e + 1 >= c {
            lemma_token(b, e);
            lemma_concat_associative(cases_tokens(b, acc), cases_rest(b, acc, k, e), b.subrange(e, c));
            lemma_join(b, if acc.len() > 0 { k - 1 } else { k }, e, c);
        } else {
            lemma_cases(b, e + 1, c, acc2);
            lemma_concat_associative(cases_tokens(b, acc), cases_rest(b, acc, k, e), b.subrange(e, c));
            lemma_join(b, if acc.len() > 0 { k - 1 } else { k }, e, c);
        }
    }
}

proof fn lemma_angle_close(b: Seq<TokV>, k: int, bound: int, depth: nat)
    requires
        0 <= k <= bound <= b.len(),
    ensures
        crate::parse::angle_close(b, k, bound, depth) matches Some(r) ==> k <= r < bound,
    decreases bound - k,
{
    if crate::parse::in_range(b, k, bound) && !crate::token::is_close(b[k]) {
        if crate::token::is_open(b[k]) {
            if let Some(c) = crate::token::close_of(b, k, bound) {
                lemma_angle_close(b, c + 1, bound, depth);
            }
        } else if crate::token::is_punct(b[k], '<') {
            lemma_angle_close(b, k + 1, bound, depth + 1);
        } else if crate::token::is_punct(b[k], '>') && !(k > 0 && crate::token::is_joint_punct(b[k - 1], '-')) {
            if depth > 0 {
                lemma_angle_close(b, k + 1, bound, (depth - 1) as nat);
            }
        } else {
            lemma_angle_close(b, k + 1, bound, depth);
        }
    }
}

proof fn lemma_path_rest(b: Seq<TokV>, k: int, bound: int)
    requires
        0 <= k <= bound <= b.len(),
    ensures
        path_rest(b, k, bound) matches Ok(e) ==> k <= e <= bound,
    decreases bound - k,
{
    if let Some(g) = crate::parse::generics_open(b, k, bound) {
        lemma_angle_close(b, g + 1, bound, 0);
    }
    if let Ok(s) = crate::parse::generics_end(b, k, bound) {
        if 0 <= k <= s && crate::parse::at_pair(b, s, bound, ':', ':') && crate::parse::at_ident(b, s + 2, bound) {
            lemma_path_rest(b, s + 3, bound);
        }
    }
}

proof fn lemma_plain_path(b: Seq<TokV>, p: int, bound: int)
    requires
        0 <= p <= bound <= b.len() <= usize::MAX,
    ensures
        crate::parse::plain_path_at(b, p, bound) matches Ok((s, e)) ==> s == span(p, e) && p < e <= bound,
{
    let q = if crate::parse::at_pair(b, p, bound, ':', ':') {
        p + 2
    } else {
        p
    };
    if crate::parse::at_ident(b, q, bound) {
        lemma_path_rest(b, q + 1, bound);
    }
}

proof fn lemma_helper_path(b: Seq<TokV>, p: int, bound: int)
    requires
        0 <= p <= bound <= b.len() <= usize::MAX,
    ensures
        helper_path_at(b, p, bound) matches Ok((s, e)) ==> s == span(p, e) && p < e <= bound,
{
    if crate::parse::at_open(b, p, bound, crate::token::Delim::Invisible) {
        if let Some(c) = crate::token::close_of(b, p, bound) {
            lemma_plain_path(b, p + 1, c);
        }
    } else {
        lemma_plain_path(b, p, bound);
    }
}

/// The tokens of what follows the helper's path, when that part reads.
#[verifier::rlimit(40)]
proof fn lemma_tail(b: Seq<TokV>, h: TestHelperV, p2: int)
    requires
        0 <= p2 <= b.len() <= usize::MAX,
        crate::parse::helper_tail_at(b, h.static_attrs, h.separator, h.helper, p2) == Ok::<_, crate::ast::ParseError>(h),
    ensures
        opt_fn_args_tokens(b, h.static_args) + opt_return_type_tokens(b, h.static_return_type)
            + token_at(b, h.farrow as int) + token_at(b, h.farrow + 1) + token_at(b, h.open as int)
            + cases_tokens(b, h.cases) + trailing_tokens(b, h.cases, h.trailing_comma) + token_at(
            b,
            h.close as int,
        ) == b.subrange(p2, b.len() as int),
{
    let len = b.len() as int;
    lemma_fn_args(b, p2, len);
    let p3 = match opt_fn_args_at(b, p2, len) {
        Ok((_, p3)) => p3,
        Err(_) => p2,
    };
    assert(opt_fn_args_tokens(b, h.static_args) == b.subrange(p2, p3)) by {
        if h.static_args is None {
            assert(b.subrange(p2, p2) =~= seq![]);
        }
    }
    lemma_return_type(b, p3, len);
    let p4 = h.farrow as int;
    let c = h.close as int;
    assert(case_block_at(b, p4 + 2, len) == Ok::<_, crate::ast::ParseError>((h.cases, h.trailing_comma, c)));
    lemma_token(b, p4);
    lemma_token(b, p4 + 1);
    lemma_token(b, p4 + 2);
    lemma_cases(b, p4 + 3, c, seq![]);
    assert(cases_tokens(b, seq![]) =~= seq![]);
    assert(cases_tokens(b, seq![]) + b.subrange(p4 + 3, c) =~= b.subrange(p4 + 3, c));
    lemma_token(b, c);
    let x0 = b.subrange(p2, p3);
    let x1 = b.subrange(p3, p4);
    let x2 = b.subrange(p4, p4 + 1);
    let x3 = b.subrange(p4 + 1, p4 + 2);
    let x4 = b.subrange(p4 + 2, p4 + 3);
    let x5 = cases_tokens(b, h.cases);
    let x6 = trailing_tokens(b, h.cases, h.trailing_comma);
    let x7 = b.subrange(c, c + 1);
    lemma_join(b, p2, p3, p4);
    lemma_join(b, p2, p4, p4 + 1);
    lemma_join(b, p2, p4 + 1, p4 + 2);
    lemma_join(b, p2, p4 + 2, p4 + 3);
    lemma_concat_associative(x0 + x1 + x2 + x3 + x4, x5, x6);
    lemma_join(b, p2, p4 + 3, c);
    lemma_join(b, p2, c, c + 1);
}

/// Where the attributes and the helper's path end, in a buffer that reads.
proof fn lemma_head(b: Seq<TokV>, h: TestHelperV) -> (r: (int, int))
    requires
        b.len() <= usize::MAX,
        test_helper_of(b) == Ok::<_, crate::ast::ParseError>(h),
    ensures
        0 <= r.1 <= b.len(),
        crate::parse::helper_tail_at(b, h.static_attrs, h.separator, h.helper, r.1) == Ok::<_, crate::ast::ParseError>(h),
        slices(b, h.static_attrs) + token_at(b, h.separator.at as int) + slice(b, h.helper) == b.subrange(0, r.1),
{
    let len = b.len() as int;
    lemma_attrs(b, 0, len, seq![]);
    let p = match attrs_from(b, 0, len, seq![]) {
        Ok((_, p)) => p,
        Err(_) => 0,
    };
    assert(slices(b, seq![]) + b.subrange(0, p) =~= b.subrange(0, p));
    let p1 = p + 1;
    lemma_token(b, p);
    lemma_helper_path(b, p1, len);
    let p2 = match helper_path_at(b, p1, len) {
        Ok((_, p2)) => p2,
        Err(_) => p1,
    };
    lemma_slice(b, p1, p2);
    assert(b.subrange(0, p) + b.subrange(p, p1) + b.subrange(p1, p2) =~= b.subrange(0, p2));
    (p, p2)
}

proof fn lemma_print_parsed(b: Seq<TokV>, h: TestHelperV)
    requires
        b.len() <= usize::MAX,
        test_helper_of(b) == Ok::<_, crate::ast::ParseError>(h),
    ensures
        test_helper_tokens(b, h) == b,
{
    let len = b.len() as int;
    let (_, p2) = lemma_head(b, h);
    lemma_tail(b, h, p2);
    let head = slices(b, h.static_attrs) + token_at(b, h.separator.at as int) + slice(b, h.helper);
    let y0 = opt_fn_args_tokens(b, h.static_args);
    let y1 = opt_return_type_tokens(b, h.static_return_type);
    let y2 = token_at(b, h.farrow as int);
    let y3 = token_at(b, h.farrow + 1);
    let y4 = token_at(b, h.open as int);
    let y5 = cases_tokens(b, h.cases);
    let y6 = trailing_tokens(b, h.cases, h.trailing_comma);
    let y7 = token_at(b, h.close as int);
    lemma_concat_associative(head, y0, y1);
    lemma_concat_associative(head, y0 + y1, y2);
    lemma_concat_associative(head, y0 + y1 + y2, y3);
    lemma_concat_associative(head, y0 + y1 + y2 + y3, y4);
    lemma_concat_associative(head, y0 + y1 + y2 + y3 + y4, y5);
    lemma_concat_associative(head, y0 + y1 + y2 + y3 + y4 + y5, y6);
    lemma_concat_associative(head, y0 + y1 + y2 + y3 + y4 + y5 + y6, y7);
    lemma_join(b, 0, p2, len);
    assert(b.subrange(0, len) =~= b);
    assert(test_helper_tokens(b, h) == head + y0 + y1 + y2 + y3 + y4 + y5 + y6 + y7);
}

/// Printing a specification that was read from a buffer gives back that
/// buffer, token for token: the parser drops, reorders and invents nothing.
/// Reading the printed tokens again therefore gives the same specification,
/// and expanding them gives the same test functions.
pub proof fn lemma_round_trip(b: Seq<TokV>)
    requires
        b.len() <= usize::MAX,
    ensures
        test_helper_of(b) matches Ok(h) ==> test_helper_tokens(b, h) == b && test_helper_of(
            test_helper_tokens(b, h),
        ) == Ok::<_, crate::ast::ParseError>(h) && expansion_of(test_helper_tokens(b, h))
            == expansion_of(b),
{
    if let Ok(h) = test_helper_of(b) {
        lemma_print_parsed(b, h);
    }
}

} // verus!

verus! {

/// Each case's body follows its name, and each case after the first begins
/// two tokens after the closing brace of the one before (past the comma).
pub open spec fn cases_adjacent(cs: Seq<TestCaseV>) -> bool {
    &&& forall|i: int| 0 <= i < cs.len() ==> cs[i].fn_name + 2 < #[trigger] cs[i].args.close
    &&& forall|i: int| 0 <= i < cs.len() - 1 ==> #[trigger] cs[i + 1].fn_name == cs[i].args.close + 2
}

proof fn lemma_adjacent_increasing(cs: Seq<TestCaseV>)
    requires
        cases_adjacent(cs),
    ensures
        forall|i: int, j: int| 0 <= i < j < cs.len() ==> cs[i].fn_name < cs[j].fn_name,
    decreases cs.len(),
{
    if cs.len() > 0 {
        let d = cs.drop_last();
        assert(cases_adjacent(d)) by {
            assert forall|i: int| 0 <= i < d.len() - 1 implies #[trigger] d[i + 1].fn_name == d[i].args.close + 2 by {
                assert(d[i + 1] == cs[i + 1]);
                assert(d[i] == cs[i]);
            }
        }
        lemma_adjacent_increasing(d);
        assert forall|i: int, j: int| 0 <= i < j < cs.len() implies cs[i].fn_name < cs[j].fn_name by {
            if j < cs.len() - 1 {
                assert(d[i] == cs[i] && d[j] == cs[j]);
            } else {
                let k = j - 1;
                assert(cs[k + 1].fn_name == cs[k].args.close + 2);
                assert(cs[k].fn_name + 2 < cs[k].args.close);
                if i < k {
                    assert(d[i] == cs[i] && d[k] == cs[k]);
                }
            }
        }
    }
}

proof fn lemma_cases_order(b: Seq<TokV>, k: int, c: int, acc: Seq<TestCaseV>)
    requires
        1 <= k <= c <= b.len() <= usize::MAX,
        cases_adjacent(acc),
        acc.len() > 0 ==> acc.last().args.close + 2 == k,
    ensures
        match cases_from(b, k, c, acc) {
            Ok((res, trailing)) => res.len() > acc.len() && res.subrange(0, acc.len() as int) == acc
                && cases_adjacent(res) && res[acc.len() as int].fn_name == k && res.last().args.close + 1 + (
            if trailing {
                1int
            } else {
                0
            }) == c,
            Err(_) => true,
        },
    decreases c - k,
{
    lemma_test_case(b, k, c);
    if let Ok((res, trailing)) = cases_from(b, k, c, acc) {
        let (tc, e) = match test_case_at(b, k, c) {
            Ok(x) => x,
            Err(_) => (acc.last(), k),
        };
        let acc2 = acc.push(tc);
        assert(cases_adjacent(acc2)) by {
            assert forall|i: int| 0 <= i < acc2.len() implies acc2[i].fn_name + 2 < #[trigger] acc2[i].args.close by {
                if i < acc.len() {
                    assert(acc2[i] == acc[i]);
                }
            }
            assert forall|i: int| 0 <= i < acc2.len() - 1 implies #[trigger] acc2[i + 1].fn_name == acc2[i].args.close + 2 by {
                if i + 1 < acc.len() {
                    assert(acc2[i + 1] == acc[i + 1] && acc2[i] == acc[i]);
                } else {
                    assert(acc2[i] == acc.last());
                }
            }
        }
        assert(acc2.subrange(0, acc.len() as int) =~= acc);
        if e < c && e + 1 < c {
            lemma_cases_order(b, e + 1, c, acc2);
            assert(res.subrange(0, acc.len() as int) =~= res.subrange(0, acc2.len() as int).subrange(
                0,
                acc.len() as int,
            ));
            assert(res[acc.len() as int] == res.subrange(0, acc2.len() as int)[acc.len() as int]);
        }
    }
}

/// Parsing keeps the cases as they stand in the source, in order: the first
/// right after the opening brace, each next one right after the comma that
/// ends the one before, the last right before the closing brace (and its
/// trailing comma). None is dropped, none reordered.
pub proof fn lemma_parse_keeps_case_order(b: Seq<TokV>)
    requires
        b.len() <= usize::MAX,
    ensures
        test_helper_of(b) matches Ok(h) ==> {
            &&& h.cases.len() > 0
            &&& h.cases[0].fn_name == h.open + 1
            &&& cases_adjacent(h.cases)
            &&& forall|i: int, j: int| 0 <= i < j < h.cases.len() ==> h.cases[i].fn_name < h.cases[j].fn_name
            &&& h.cases.last().args.close + 1 + (if h.trailing_comma {
                1int
            } else {
                0
            }) == h.close
        },
{
    if let Ok(h) = test_helper_of(b) {
        let _ = lemma_head(b, h);
        let len = b.len() as int;
        assert(case_block_at(b, h.farrow + 2, len) == Ok::<_, crate::ast::ParseError>(
            (h.cases, h.trailing_comma, h.close as int),
        ));
        lemma_cases_order(b, h.farrow + 3, h.close as int, seq![]);
        lemma_adjacent_increasing(h.cases);
    }
}

} // verus!
