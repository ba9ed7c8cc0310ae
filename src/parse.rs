//! The grammar, as spec functions over a token sequence, and the
//! recursive-descent parser that is proved to compute it.
//!
//! Every production reads from a position `p` up to a `bound`: the end of the
//! buffer, or the closing delimiter of the group it stands in. It yields the
//! node and the position after it, or the error of the first mismatch.
use vstd::prelude::*;
use crate::ast::{
    CaseArgs, CaseArgsV, Construct, EmptyArgs, ErrorKind, FnArgs, FnArgsV, ParseError, ReturnType, Separator,
    SeparatorKind, Span, TestCase, TestCaseV, TestHelper, TestHelperV,
};
use crate::token::{
    close_of, find_close, is_close, is_ident, is_joint_punct, is_open, is_open_of, is_punct,
    is_word, text_is, toks_view, Delim, Tok, TokV,
};

verus! {

pub open spec fn span(start: int, end: int) -> Span {
    Span { start: start as usize, end: end as usize }
}

pub open spec fn err(kind: ErrorKind, at: int) -> ParseError {
    ParseError { kind, at: at as usize }
}

pub open spec fn expected(c: Construct, at: int) -> ParseError {
    err(ErrorKind::Expected(c), at)
}

pub open spec fn in_range(b: Seq<TokV>, k: int, bound: int) -> bool {
    0 <= k < bound <= b.len()
}

pub open spec fn at_punct(b: Seq<TokV>, k: int, bound: int, c: char) -> bool {
    in_range(b, k, bound) && is_punct(b[k], c)
}

/// A two-character operator such as `->`: its first character joint.
pub open spec fn at_pair(b: Seq<TokV>, k: int, bound: int, c1: char, c2: char) -> bool {
    in_range(b, k + 1, bound) && 0 <= k && is_joint_punct(b[k], c1) && is_punct(b[k + 1], c2)
}

pub open spec fn at_open(b: Seq<TokV>, k: int, bound: int, d: Delim) -> bool {
    in_range(b, k, bound) && is_open_of(b[k], d)
}

pub open spec fn at_ident(b: Seq<TokV>, k: int, bound: int) -> bool {
    in_range(b, k, bound) && is_ident(b[k])
}

/// The outer attributes `#[...]` from `p` on, appended to `acc`.
pub open spec fn attrs_from(b: Seq<TokV>, p: int, bound: int, acc: Seq<Span>) -> Result<(Seq<Span>, int), ParseError>
    decreases bound - p,
{
    if at_punct(b, p, bound, '#') && at_open(b, p + 1, bound, Delim::Bracket) {
        match close_of(b, p + 1, bound) {
            Some(c) => attrs_from(b, c + 1, bound, acc.push(span(p, c + 1))),
            None => Err(expected(Construct::Delimiters, p + 1)),
        }
    } else {
        Ok((acc, p))
    }
}

/// What ends an opaque expression or type at the top level of its group.
#[derive(Clone, Copy, Debug, PartialEq, Eq, Structural)]
pub enum Stop {
    /// `,`, as between arguments.
    Comma,
    /// `=>`, as after the block-wide return type.
    FatArrow,
}

pub open spec fn at_stop(b: Seq<TokV>, k: int, bound: int, stop: Stop) -> bool {
    match stop {
        Stop::Comma => at_punct(b, k, bound, ','),
        Stop::FatArrow => at_pair(b, k, bound, '=', '>'),
    }
}

/// Where the token trees from `k` on end: at `stop`, at `bound`, or with an
/// error at a stray closing delimiter or at a group left open.
pub open spec fn opaque_end(b: Seq<TokV>, k: int, bound: int, stop: Stop) -> Result<int, ParseError>
    decreases bound - k,
{
    if !in_range(b, k, bound) || at_stop(b, k, bound, stop) {
        Ok(k)
    } else if is_close(b[k]) {
        Err(expected(Construct::Delimiters, k))
    } else if is_open(b[k]) {
        match close_of(b, k, bound) {
            Some(c) => opaque_end(b, c + 1, bound, stop),
            None => Err(expected(Construct::Delimiters, k)),
        }
    } else {
        opaque_end(b, k + 1, bound, stop)
    }
}

/// The arguments of a list whose contents run from `k` to the closing
/// parenthesis at `c`, appended to `acc`. No argument may be empty, and no
/// comma may follow the last one.
pub open spec fn args_from(b: Seq<TokV>, k: int, c: int, acc: Seq<Span>) -> Result<Seq<Span>, ParseError>
    decreases c - k,
{
    match opaque_end(b, k, c, Stop::Comma) {
        Err(x) => Err(x),
        Ok(e) => if e <= k {
            Err(expected(Construct::Args, k))
        } else if e >= c {
            Ok(acc.push(span(k, e)))
        } else if e + 1 >= c {
            Err(expected(Construct::Args, c))
        } else {
            args_from(b, e + 1, c, acc.push(span(k, e)))
        },
    }
}

/// `( arg, ... )` at `p`.
pub open spec fn fn_args_at(b: Seq<TokV>, p: int, bound: int) -> Result<(FnArgsV, int), ParseError> {
    if !at_open(b, p, bound, Delim::Paren) {
        Err(expected(Construct::Args, p))
    } else {
        match close_of(b, p, bound) {
            None => Err(expected(Construct::Delimiters, p)),
            Some(c) => if c == p + 1 {
                Err(err(ErrorKind::EmptyArgList(EmptyArgs::EmptyParentheses), c))
            } else {
                match args_from(b, p + 1, c, seq![]) {
                    Err(x) => Err(x),
                    Ok(args) => Ok((FnArgsV { open: p as usize, args, close: c as usize }, c + 1)),
                }
            },
        }
    }
}

/// `-> Type` at `p`; the type runs to `=>` or to `bound`.
pub open spec fn return_type_at(b: Seq<TokV>, p: int, bound: int) -> Result<(ReturnType, int), ParseError> {
    if !at_pair(b, p, bound, '-', '>') {
        Err(expected(Construct::ReturnType, p))
    } else {
        match opaque_end(b, p + 2, bound, Stop::FatArrow) {
            Err(x) => Err(x),
            Ok(e) => if e <= p + 2 {
                Err(expected(Construct::ReturnType, p + 2))
            } else {
                Ok((ReturnType { arrow: p as usize, ty: span(p + 2, e) }, e))
            },
        }
    }
}

/// A return type at `p` if an arrow stands there, else none.
pub open spec fn opt_return_type_at(b: Seq<TokV>, p: int, bound: int) -> Result<(Option<ReturnType>, int), ParseError> {
    if at_pair(b, p, bound, '-', '>') {
        match return_type_at(b, p, bound) {
            Err(x) => Err(x),
            Ok((r, e)) => Ok((Some(r), e)),
        }
    } else {
        Ok((None, p))
    }
}

/// The keyword that introduces the helper, at `p`.
pub open spec fn separator_at(b: Seq<TokV>, p: int, bound: int) -> Result<(Separator, int), ParseError> {
    if in_range(b, p, bound) && is_word(b[p], "fn"@) {
        Ok((Separator { kind: SeparatorKind::Fn, at: p as usize }, p + 1))
    } else if in_range(b, p, bound) && is_word(b[p], "struct"@) {
        Ok((Separator { kind: SeparatorKind::Struct, at: p as usize }, p + 1))
    } else if in_range(b, p, bound) && is_word(b[p], "enum"@) {
        Ok((Separator { kind: SeparatorKind::Enum, at: p as usize }, p + 1))
    } else {
        Err(expected(Construct::HelperKind, p))
    }
}

/// Index of the `>` that closes generic arguments whose contents start at
/// `k`, `depth` brackets deep. A `>` right after a joint `-` is part of `->`.
pub open spec fn angle_close(b: Seq<TokV>, k: int, bound: int, depth: nat) -> Option<int>
    decreases bound - k,
{
    if !in_range(b, k, bound) || is_close(b[k]) {
        None
    } else if is_open(b[k]) {
        match close_of(b, k, bound) {
            Some(c) => angle_close(b, c + 1, bound, depth),
            None => None,
        }
    } else if is_punct(b[k], '<') {
        angle_close(b, k + 1, bound, depth + 1)
    } else if is_punct(b[k], '>') && !(k > 0 && is_joint_punct(b[k - 1], '-')) {
        if depth == 0 {
            Some(k)
        } else {
            angle_close(b, k + 1, bound, (depth - 1) as nat)
        }
    } else {
        angle_close(b, k + 1, bound, depth)
    }
}

/// The `<` that opens generic arguments after a segment's identifier, which
/// ends at `k`: right there (`Vec<u8>`, not `<=`), or after `::` (`Vec::<u8>`).
pub open spec fn generics_open(b: Seq<TokV>, k: int, bound: int) -> Option<int> {
    if at_punct(b, k, bound, '<') && !at_pair(b, k, bound, '<', '=') {
        Some(k)
    } else if at_pair(b, k, bound, ':', ':') && at_punct(b, k + 2, bound, '<') {
        Some(k + 2)
    } else {
        None
    }
}

/// Where a segment whose identifier ends at `k` ends, generic arguments
/// included.
pub open spec fn generics_end(b: Seq<TokV>, k: int, bound: int) -> Result<int, ParseError> {
    match generics_open(b, k, bound) {
        None => Ok(k),
        Some(g) => match angle_close(b, g + 1, bound, 0) {
            Some(r) => Ok(r + 1),
            None => Err(expected(Construct::Helper, g)),
        },
    }
}

/// Where a path ends, from the end `k` of a segment's identifier: the
/// segment's generic arguments, then any further `:: ident <...>` segments.
pub open spec fn path_rest(b: Seq<TokV>, k: int, bound: int) -> Result<int, ParseError>
    decreases bound - k,
{
    match generics_end(b, k, bound) {
        Err(x) => Err(x),
        Ok(s) => if 0 <= k <= s && at_pair(b, s, bound, ':', ':') && at_ident(b, s + 2, bound) {
            path_rest(b, s + 3, bound)
        } else {
            Ok(s)
        },
    }
}

/// A path at `p`: an optional leading `::`, then segments joined by `::`,
/// each an identifier with optional generic arguments.
pub open spec fn plain_path_at(b: Seq<TokV>, p: int, bound: int) -> Result<(Span, int), ParseError> {
    let q = if at_pair(b, p, bound, ':', ':') {
        p + 2
    } else {
        p
    };
    if at_ident(b, q, bound) {
        match path_rest(b, q + 1, bound) {
            Err(x) => Err(x),
            Ok(e) => Ok((span(p, e), e)),
        }
    } else {
        Err(expected(Construct::Helper, q))
    }
}

/// The helper's path at `p`, bare or as the whole of an invisible group (as
/// a path handed on by another macro arrives).
pub open spec fn helper_path_at(b: Seq<TokV>, p: int, bound: int) -> Result<(Span, int), ParseError> {
    if at_open(b, p, bound, Delim::Invisible) {
        match close_of(b, p, bound) {
            None => Err(expected(Construct::Delimiters, p)),
            Some(c) => match plain_path_at(b, p + 1, c) {
                Err(x) => Err(x),
                Ok((_, e)) => if e < c {
                    Err(expected(Construct::Helper, e))
                } else {
                    Ok((span(p, c + 1), c + 1))
                },
            },
        }
    } else {
        plain_path_at(b, p, bound)
    }
}

/// The arguments at `k`, where a case's attributes end; its body closes at `e`.
pub open spec fn case_fn_args_at(b: Seq<TokV>, k: int, e: int) -> Result<(FnArgsV, int), ParseError> {
    if at_open(b, k, e, Delim::Paren) {
        fn_args_at(b, k, e)
    } else if k >= e {
        Err(err(ErrorKind::EmptyArgList(EmptyArgs::NoParentheses), k))
    } else {
        Err(expected(Construct::CaseArgs, k))
    }
}

/// `{ #[attr]... (args) -> Type }` at `p`.
pub open spec fn case_args_at(b: Seq<TokV>, p: int, bound: int) -> Result<(CaseArgsV, int), ParseError> {
    if !at_open(b, p, bound, Delim::Brace) {
        Err(expected(Construct::Braces, p))
    } else {
        match close_of(b, p, bound) {
            None => Err(expected(Construct::Delimiters, p)),
            Some(e) => match attrs_from(b, p + 1, e, seq![]) {
                Err(x) => Err(x),
                Ok((attrs, k)) => match case_fn_args_at(b, k, e) {
                    Err(x) => Err(x),
                    Ok((args, k2)) => match opt_return_type_at(b, k2, e) {
                        Err(x) => Err(x),
                        Ok((return_type, k3)) => if k3 < e {
                            Err(expected(Construct::End, k3))
                        } else {
                            Ok((CaseArgsV { open: p as usize, attrs, args, return_type, close: e as usize }, e + 1))
                        },
                    },
                },
            },
        }
    }
}

/// `name: { ... }` at `p`.
pub open spec fn test_case_at(b: Seq<TokV>, p: int, bound: int) -> Result<(TestCaseV, int), ParseError> {
    if !at_ident(b, p, bound) || !at_punct(b, p + 1, bound, ':') {
        Err(expected(Construct::CaseName, p))
    } else {
        match case_args_at(b, p + 2, bound) {
            Err(x) => Err(x),
            Ok((args, e)) => Ok((TestCaseV { fn_name: p as usize, args }, e)),
        }
    }
}

/// The cases from `k` to the closing brace at `c`, appended to `acc`, and
/// whether a comma follows the last one.
pub open spec fn cases_from(b: Seq<TokV>, k: int, c: int, acc: Seq<TestCaseV>) -> Result<(Seq<TestCaseV>, bool), ParseError>
    decreases c - k,
{
    match test_case_at(b, k, c) {
        Err(x) => Err(x),
        Ok((tc, e)) => if e >= c {
            Ok((acc.push(tc), false))
        } else if !at_punct(b, e, c, ',') {
            Err(expected(Construct::Comma, e))
        } else if e + 1 >= c {
            Ok((acc.push(tc), true))
        } else if e <= k {
            Err(expected(Construct::Comma, e))
        } else {
            cases_from(b, e + 1, c, acc.push(tc))
        },
    }
}

/// Static arguments at `p` if a parenthesis stands there, else none.
pub open spec fn opt_fn_args_at(b: Seq<TokV>, p: int, bound: int) -> Result<(Option<FnArgsV>, int), ParseError> {
    if at_open(b, p, bound, Delim::Paren) {
        match fn_args_at(b, p, bound) {
            Err(x) => Err(x),
            Ok((a, e)) => Ok((Some(a), e)),
        }
    } else {
        Ok((None, p))
    }
}

/// `{ case, ... }` at `p`: the cases and whether a comma ends them, and the
/// closing brace.
pub open spec fn case_block_at(b: Seq<TokV>, p: int, bound: int) -> Result<(Seq<TestCaseV>, bool, int), ParseError> {
    if !at_open(b, p, bound, Delim::Brace) {
        Err(expected(Construct::Braces, p))
    } else {
        match close_of(b, p, bound) {
            None => Err(expected(Construct::Delimiters, p)),
            Some(c) => if c == p + 1 {
                Err(err(ErrorKind::EmptyCaseList, c))
            } else {
                match cases_from(b, p + 1, c, seq![]) {
                    Err(x) => Err(x),
                    Ok((cases, trailing)) => Ok((cases, trailing, c)),
                }
            },
        }
    }
}

/// Everything after the helper's path, at `p`: static arguments, static
/// return type, `=>` and the case block, which must end the buffer.
pub open spec fn helper_tail_at(
    b: Seq<TokV>,
    static_attrs: Seq<Span>,
    separator: Separator,
    helper: Span,
    p: int,
) -> Result<TestHelperV, ParseError> {
    let len = b.len() as int;
    match opt_fn_args_at(b, p, len) {
        Err(x) => Err(x),
        Ok((static_args, p2)) => match opt_return_type_at(b, p2, len) {
            Err(x) => Err(x),
            Ok((static_return_type, p3)) => if !at_pair(b, p3, len, '=', '>') {
                Err(expected(Construct::FatArrow, p3))
            } else {
                match case_block_at(b, p3 + 2, len) {
                    Err(x) => Err(x),
                    Ok((cases, trailing_comma, c)) => if c + 1 < len {
                        Err(expected(Construct::End, c + 1))
                    } else {
                        Ok(TestHelperV {
                            static_attrs,
                            separator,
                            helper,
                            static_args,
                            static_return_type,
                            farrow: p3 as usize,
                            open: (p3 + 2) as usize,
                            cases,
                            trailing_comma,
                            close: c as usize,
                        })
                    },
                }
            },
        },
    }
}

/// The whole buffer as one specification.
pub open spec fn test_helper_of(b: Seq<TokV>) -> Result<TestHelperV, ParseError> {
    let len = b.len() as int;
    match attrs_from(b, 0, len, seq![]) {
        Err(x) => Err(x),
        Ok((static_attrs, p)) => match separator_at(b, p, len) {
            Err(x) => Err(x),
            Ok((separator, p1)) => match helper_path_at(b, p1, len) {
                Err(x) => Err(x),
                Ok((helper, p2)) => helper_tail_at(b, static_attrs, separator, helper, p2),
            },
        },
    }
}

pub fn punct_at(b: &Vec<Tok>, k: usize, bound: usize, c: char) -> (r: bool)
    requires
        bound <= b@.len(),
    ensures
        r == at_punct(toks_view(b@), k as int, bound as int, c),
{
    if k < bound {
        match &b[k] {
            Tok::Punct(ch, _) => *ch == c,
            _ => false,
        }
    } else {
        false
    }
}

pub fn pair_at(b: &Vec<Tok>, k: usize, bound: usize, c1: char, c2: char) -> (r: bool)
    requires
        bound <= b@.len(),
    ensures
        r == at_pair(toks_view(b@), k as int, bound as int, c1, c2),
{
    if k < bound && bound - k >= 2 {
        match &b[k] {
            Tok::Punct(ch, true) => *ch == c1 && punct_at(b, k + 1, bound, c2),
            _ => false,
        }
    } else {
        false
    }
}

pub fn open_at(b: &Vec<Tok>, k: usize, bound: usize, d: Delim) -> (r: bool)
    requires
        bound <= b@.len(),
    ensures
        r == at_open(toks_view(b@), k as int, bound as int, d),
{
    if k < bound {
        match &b[k] {
            Tok::Open(e) => *e == d,
            _ => false,
        }
    } else {
        false
    }
}

pub fn ident_at(b: &Vec<Tok>, k: usize, bound: usize) -> (r: bool)
    requires
        bound <= b@.len(),
    ensures
        r == at_ident(toks_view(b@), k as int, bound as int),
{
    if k < bound {
        match &b[k] {
            Tok::Ident(_) => true,
            _ => false,
        }
    } else {
        false
    }
}

/// Reads the outer attributes `#[...]` that stand at `p`.
pub fn parse_outer_attrs(b: &Vec<Tok>, p: usize, bound: usize) -> (r: Result<(Vec<Span>, usize), ParseError>)
    requires
        p <= bound <= b@.len(),
    ensures
        match r {
            Ok((v, n)) => attrs_from(toks_view(b@), p as int, bound as int, seq![]) == Ok::<_, ParseError>((v@, n as int))
                && p <= n <= bound,
            Err(x) => attrs_from(toks_view(b@), p as int, bound as int, seq![]) == Err::<(Seq<Span>, int), _>(x),
        },
{
    let mut v: Vec<Span> = Vec::new();
    let mut k: usize = p;
    loop
        invariant
            p <= k <= bound <= b@.len(),
            attrs_from(toks_view(b@), p as int, bound as int, seq![]) == attrs_from(toks_view(b@), k as int, bound as int, v@),
        decreases bound - k,
    {
        if punct_at(b, k, bound, '#') && open_at(b, k + 1, bound, Delim::Bracket) {
            match find_close(b, k + 1, bound) {
                Some(c) => {
                    v.push(Span { start: k, end: c + 1 });
                    k = c + 1;
                },
                None => {
                    return Err(ParseError { kind: ErrorKind::Expected(Construct::Delimiters), at: k + 1 });
                },
            }
        } else {
            return Ok((v, k));
        }
    }
}

/// Finds where the opaque expression or type at `k` ends.
pub fn scan_opaque(b: &Vec<Tok>, k: usize, bound: usize, stop: Stop) -> (r: Result<usize, ParseError>)
    requires
        k <= bound <= b@.len(),
    ensures
        match r {
            Ok(e) => opaque_end(toks_view(b@), k as int, bound as int, stop) == Ok::<int, ParseError>(e as int)
                && k <= e <= bound,
            Err(x) => opaque_end(toks_view(b@), k as int, bound as int, stop) == Err::<int, _>(x),
        },
{
    let mut i: usize = k;
    loop
        invariant
            k <= i <= bound <= b@.len(),
            opaque_end(toks_view(b@), k as int, bound as int, stop) == opaque_end(toks_view(b@), i as int, bound as int, stop),
        decreases bound - i,
    {
        let at_end = match stop {
            Stop::Comma => punct_at(b, i, bound, ','),
            Stop::FatArrow => pair_at(b, i, bound, '=', '>'),
        };
        if i >= bound || at_end {
            return Ok(i);
        }
        match &b[i] {
            Tok::Close(_) => {
                return Err(ParseError { kind: ErrorKind::Expected(Construct::Delimiters), at: i });
            },
            Tok::Open(_) => {
                match find_close(b, i, bound) {
                    Some(c) => {
                        i = c + 1;
                    },
                    None => {
                        return Err(ParseError { kind: ErrorKind::Expected(Construct::Delimiters), at: i });
                    },
                }
            },
            _ => {
                i = i + 1;
            },
        }
    }
}

} // verus!

verus! {

impl FnArgs {
    /// Reads `( arg, ... )` at `p`.
    pub fn parse(b: &Vec<Tok>, p: usize, bound: usize) -> (r: Result<(FnArgs, usize), ParseError>)
        requires
            p <= bound <= b@.len(),
        ensures
            match r {
                Ok((a, n)) => fn_args_at(toks_view(b@), p as int, bound as int) == Ok::<_, ParseError>((a@, n as int))
                    && p < n <= bound,
                Err(x) => fn_args_at(toks_view(b@), p as int, bound as int) == Err::<(FnArgsV, int), _>(x),
            },
    {
        if !open_at(b, p, bound, Delim::Paren) {
            return Err(ParseError { kind: ErrorKind::Expected(Construct::Args), at: p });
        }
        let c = match find_close(b, p, bound) {
            Some(c) => c,
            None => {
                return Err(ParseError { kind: ErrorKind::Expected(Construct::Delimiters), at: p });
            },
        };
        if c == p + 1 {
            return Err(ParseError { kind: ErrorKind::EmptyArgList(EmptyArgs::EmptyParentheses), at: c });
        }
        let mut args: Vec<Span> = Vec::new();
        let mut k: usize = p + 1;
        loop
            invariant
                p < k < c < bound <= b@.len(),
                at_open(toks_view(b@), p as int, bound as int, Delim::Paren),
                close_of(toks_view(b@), p as int, bound as int) == Some(c as int),
                args_from(toks_view(b@), p + 1, c as int, seq![]) == args_from(toks_view(b@), k as int, c as int, args@),
            decreases c - k,
        {
            let e = match scan_opaque(b, k, c, Stop::Comma) {
                Ok(e) => e,
                Err(x) => {
                    assert(args_from(toks_view(b@), k as int, c as int, args@) == Err::<Seq<Span>, ParseError>(x));
                    return Err(x);
                },
            };
            if e <= k {
                return Err(ParseError { kind: ErrorKind::Expected(Construct::Args), at: k });
            }
            let ghost before = args@;
            args.push(Span { start: k, end: e });
            if e >= c {
                assert(args_from(toks_view(b@), k as int, c as int, before) == Ok::<Seq<Span>, ParseError>(args@));
                return Ok((FnArgs { open: p, args, close: c }, c + 1));
            }
            if e + 1 >= c {
                return Err(ParseError { kind: ErrorKind::Expected(Construct::Args), at: c });
            }
            k = e + 1;
        }
    }
}

impl ReturnType {
    /// Reads `-> Type` at `p`.
    pub fn parse(b: &Vec<Tok>, p: usize, bound: usize) -> (r: Result<(ReturnType, usize), ParseError>)
        requires
            p <= bound <= b@.len(),
        ensures
            match r {
                Ok((t, n)) => return_type_at(toks_view(b@), p as int, bound as int) == Ok::<_, ParseError>((t, n as int))
                    && p < n <= bound,
                Err(x) => return_type_at(toks_view(b@), p as int, bound as int) == Err::<(ReturnType, int), _>(x),
            },
    {
        if !pair_at(b, p, bound, '-', '>') {
            return Err(ParseError { kind: ErrorKind::Expected(Construct::ReturnType), at: p });
        }
        let e = match scan_opaque(b, p + 2, bound, Stop::FatArrow) {
            Ok(e) => e,
            Err(x) => {
                return Err(x);
            },
        };
        if e <= p + 2 {
            return Err(ParseError { kind: ErrorKind::Expected(Construct::ReturnType), at: p + 2 });
        }
        Ok((ReturnType { arrow: p, ty: Span { start: p + 2, end: e } }, e))
    }

    /// Reads a return type at `p` if an arrow stands there.
    pub fn try_parse(b: &Vec<Tok>, p: usize, bound: usize) -> (r: Result<(Option<ReturnType>, usize), ParseError>)
        requires
            p <= bound <= b@.len(),
        ensures
            match r {
                Ok((t, n)) => opt_return_type_at(toks_view(b@), p as int, bound as int) == Ok::<_, ParseError>((t, n as int))
                    && p <= n <= bound,
                Err(x) => opt_return_type_at(toks_view(b@), p as int, bound as int) == Err::<(Option<ReturnType>, int), _>(x),
            },
    {
        if pair_at(b, p, bound, '-', '>') {
            match ReturnType::parse(b, p, bound) {
                Ok((t, n)) => Ok((Some(t), n)),
                Err(x) => Err(x),
            }
        } else {
            Ok((None, p))
        }
    }
}

impl Separator {
    /// Reads `fn`, `struct` or `enum` at `p`.
    pub fn parse(b: &Vec<Tok>, p: usize, bound: usize) -> (r: Result<(Separator, usize), ParseError>)
        requires
            p <= bound <= b@.len(),
        ensures
            match r {
                Ok((s, n)) => separator_at(toks_view(b@), p as int, bound as int) == Ok::<_, ParseError>((s, n as int))
                    && n == p + 1 && n <= bound,
                Err(x) => separator_at(toks_view(b@), p as int, bound as int) == Err::<(Separator, int), _>(x),
            },
    {
        if p < bound {
            if let Tok::Ident(s) = &b[p] {
                if text_is(s, "fn") {
                    return Ok((Separator { kind: SeparatorKind::Fn, at: p }, p + 1));
                } else if text_is(s, "struct") {
                    return Ok((Separator { kind: SeparatorKind::Struct, at: p }, p + 1));
                } else if text_is(s, "enum") {
                    return Ok((Separator { kind: SeparatorKind::Enum, at: p }, p + 1));
                }
            }
        }
        Err(ParseError { kind: ErrorKind::Expected(Construct::HelperKind), at: p })
    }
}

/// Finds the `>` that closes generic arguments whose contents start at `k`.
fn find_angle_close(b: &Vec<Tok>, k: usize, bound: usize) -> (r: Option<usize>)
    requires
        k <= bound <= b@.len(),
    ensures
        match r {
            Some(c) => angle_close(toks_view(b@), k as int, bound as int, 0) == Some(c as int) && k <= c < bound,
            None => angle_close(toks_view(b@), k as int, bound as int, 0) is None,
        },
{
    let mut i: usize = k;
    let mut depth: usize = 0;
    while i < bound
        invariant
            k <= i <= bound <= b@.len(),
            depth <= i,
            angle_close(toks_view(b@), k as int, bound as int, 0) == angle_close(
                toks_view(b@),
                i as int,
                bound as int,
                depth as nat,
            ),
        decreases bound - i,
    {
        match &b[i] {
            Tok::Close(_) => {
                return None;
            },
            Tok::Open(_) => {
                match find_close(b, i, bound) {
                    Some(c) => {
                        i = c + 1;
                    },
                    None => {
                        return None;
                    },
                }
            },
            Tok::Punct(ch, _) => {
                let arrow = i > 0 && match &b[i - 1] {
                    Tok::Punct(prev, true) => *prev == '-',
                    _ => false,
                };
                if *ch == '<' {
                    depth = depth + 1;
                } else if *ch == '>' && !arrow {
                    if depth == 0 {
                        return Some(i);
                    }
                    depth = depth - 1;
                }
                i = i + 1;
            },
            _ => {
                i = i + 1;
            },
        }
    }
    None
}

/// Finds where a segment whose identifier ends at `k` ends.
fn parse_generics_end(b: &Vec<Tok>, k: usize, bound: usize) -> (r: Result<usize, ParseError>)
    requires
        k <= bound <= b@.len(),
    ensures
        match r {
            Ok(s) => generics_end(toks_view(b@), k as int, bound as int) == Ok::<int, ParseError>(s as int)
                && k <= s <= bound,
            Err(x) => generics_end(toks_view(b@), k as int, bound as int) == Err::<int, _>(x),
        },
{
    let g = if punct_at(b, k, bound, '<') && !pair_at(b, k, bound, '<', '=') {
        k
    } else if pair_at(b, k, bound, ':', ':') && punct_at(b, k + 2, bound, '<') {
        k + 2
    } else {
        return Ok(k);
    };
    match find_angle_close(b, g + 1, bound) {
        Some(r) => Ok(r + 1),
        None => Err(ParseError { kind: ErrorKind::Expected(Construct::Helper), at: g }),
    }
}

/// Reads a path at `p`.
fn parse_plain_path(b: &Vec<Tok>, p: usize, bound: usize) -> (r: Result<(Span, usize), ParseError>)
    requires
        p <= bound <= b@.len(),
    ensures
        match r {
            Ok((s, n)) => plain_path_at(toks_view(b@), p as int, bound as int) == Ok::<_, ParseError>((s, n as int))
                && p < n <= bound,
            Err(x) => plain_path_at(toks_view(b@), p as int, bound as int) == Err::<(Span, int), _>(x),
        },
{
    let q = if pair_at(b, p, bound, ':', ':') {
        p + 2
    } else {
        p
    };
    if !ident_at(b, q, bound) {
        return Err(ParseError { kind: ErrorKind::Expected(Construct::Helper), at: q });
    }
    let mut k: usize = q + 1;
    loop
        invariant
            q < k <= bound <= b@.len(),
            at_ident(toks_view(b@), q as int, bound as int),
            q == (if at_pair(toks_view(b@), p as int, bound as int, ':', ':') { p + 2 } else { p as int }),
            path_rest(toks_view(b@), q + 1, bound as int) == path_rest(toks_view(b@), k as int, bound as int),
        decreases bound - k,
    {
        let s = match parse_generics_end(b, k, bound) {
            Ok(s) => s,
            Err(x) => {
                return Err(x);
            },
        };
        if pair_at(b, s, bound, ':', ':') && ident_at(b, s + 2, bound) {
            k = s + 3;
        } else {
            return Ok((Span { start: p, end: s }, s));
        }
    }
}

/// Reads the helper's path at `p`.
pub fn parse_helper_path(b: &Vec<Tok>, p: usize, bound: usize) -> (r: Result<(Span, usize), ParseError>)
    requires
        p <= bound <= b@.len(),
    ensures
        match r {
            Ok((s, n)) => helper_path_at(toks_view(b@), p as int, bound as int) == Ok::<_, ParseError>((s, n as int))
                && p < n <= bound,
            Err(x) => helper_path_at(toks_view(b@), p as int, bound as int) == Err::<(Span, int), _>(x),
        },
{
    if !open_at(b, p, bound, Delim::Invisible) {
        return parse_plain_path(b, p, bound);
    }
    let c = match find_close(b, p, bound) {
        Some(c) => c,
        None => {
            return Err(ParseError { kind: ErrorKind::Expected(Construct::Delimiters), at: p });
        },
    };
    let e = match parse_plain_path(b, p + 1, c) {
        Ok((_, e)) => e,
        Err(x) => {
            return Err(x);
        },
    };
    if e < c {
        return Err(ParseError { kind: ErrorKind::Expected(Construct::Helper), at: e });
    }
    Ok((Span { start: p, end: c + 1 }, c + 1))
}

} // verus!

verus! {

impl CaseArgs {
    /// Reads `{ #[attr]... (args) -> Type }` at `p`.
    pub fn parse(b: &Vec<Tok>, p: usize, bound: usize) -> (r: Result<(CaseArgs, usize), ParseError>)
        requires
            p <= bound <= b@.len(),
        ensures
            match r {
                Ok((a, n)) => case_args_at(toks_view(b@), p as int, bound as int) == Ok::<_, ParseError>((a@, n as int))
                    && p < n <= bound,
                Err(x) => case_args_at(toks_view(b@), p as int, bound as int) == Err::<(CaseArgsV, int), _>(x),
            },
    {
        if !open_at(b, p, bound, Delim::Brace) {
            return Err(ParseError { kind: ErrorKind::Expected(Construct::Braces), at: p });
        }
        let e = match find_close(b, p, bound) {
            Some(e) => e,
            None => {
                return Err(ParseError { kind: ErrorKind::Expected(Construct::Delimiters), at: p });
            },
        };
        let (attrs, k) = match parse_outer_attrs(b, p + 1, e) {
            Ok(x) => x,
            Err(x) => {
                return Err(x);
            },
        };
        if !open_at(b, k, e, Delim::Paren) {
            if k >= e {
                return Err(ParseError { kind: ErrorKind::EmptyArgList(EmptyArgs::NoParentheses), at: k });
            }
            return Err(ParseError { kind: ErrorKind::Expected(Construct::CaseArgs), at: k });
        }
        let (args, k2) = match FnArgs::parse(b, k, e) {
            Ok(x) => x,
            Err(x) => {
                return Err(x);
            },
        };
        let (return_type, k3) = match ReturnType::try_parse(b, k2, e) {
            Ok(x) => x,
            Err(x) => {
                return Err(x);
            },
        };
        if k3 < e {
            return Err(ParseError { kind: ErrorKind::Expected(Construct::End), at: k3 });
        }
        Ok((CaseArgs { open: p, attrs, args, return_type, close: e }, e + 1))
    }
}

impl TestCase {
    /// Reads `name: { ... }` at `p`.
    pub fn parse(b: &Vec<Tok>, p: usize, bound: usize) -> (r: Result<(TestCase, usize), ParseError>)
        requires
            p <= bound <= b@.len(),
        ensures
            match r {
                Ok((t, n)) => test_case_at(toks_view(b@), p as int, bound as int) == Ok::<_, ParseError>((t@, n as int))
                    && p < n <= bound,
                Err(x) => test_case_at(toks_view(b@), p as int, bound as int) == Err::<(TestCaseV, int), _>(x),
            },
    {
        if !ident_at(b, p, bound) || !punct_at(b, p + 1, bound, ':') {
            return Err(ParseError { kind: ErrorKind::Expected(Construct::CaseName), at: p });
        }
        match CaseArgs::parse(b, p + 2, bound) {
            Ok((args, e)) => Ok((TestCase { fn_name: p, args }, e)),
            Err(x) => Err(x),
        }
    }
}

/// Reads `{ case, ... }` at `p`: the cases, whether a comma ends them, and
/// the index of the closing brace.
pub fn parse_case_block(b: &Vec<Tok>, p: usize, bound: usize) -> (r: Result<(Vec<TestCase>, bool, usize), ParseError>)
    requires
        p <= bound <= b@.len(),
    ensures
        match r {
            Ok((v, t, c)) => case_block_at(toks_view(b@), p as int, bound as int)
                == Ok::<_, ParseError>((v@.map_values(|x: TestCase| x@), t, c as int)) && p < c < bound,
            Err(x) => case_block_at(toks_view(b@), p as int, bound as int) == Err::<(Seq<TestCaseV>, bool, int), _>(x),
        },
{
    if !open_at(b, p, bound, Delim::Brace) {
        return Err(ParseError { kind: ErrorKind::Expected(Construct::Braces), at: p });
    }
    let c = match find_close(b, p, bound) {
        Some(c) => c,
        None => {
            return Err(ParseError { kind: ErrorKind::Expected(Construct::Delimiters), at: p });
        },
    };
    // An empty block is its own error, not an empty list.
    if c == p + 1 {
        return Err(ParseError { kind: ErrorKind::EmptyCaseList, at: c });
    }
    let mut cases: Vec<TestCase> = Vec::new();
    let mut k: usize = p + 1;
    assert(cases@.map_values(|x: TestCase| x@) =~= seq![]);
    loop
        invariant
            p < k < c < bound <= b@.len(),
            at_open(toks_view(b@), p as int, bound as int, Delim::Brace),
            close_of(toks_view(b@), p as int, bound as int) == Some(c as int),
            cases_from(toks_view(b@), p + 1, c as int, seq![]) == cases_from(
                toks_view(b@),
                k as int,
                c as int,
                cases@.map_values(|x: TestCase| x@),
            ),
        decreases c - k,
    {
        let ghost before = cases@.map_values(|x: TestCase| x@);
        let (tc, e) = match TestCase::parse(b, k, c) {
            Ok(x) => x,
            Err(x) => {
                assert(cases_from(toks_view(b@), k as int, c as int, before) == Err::<(Seq<TestCaseV>, bool), ParseError>(x));
                return Err(x);
            },
        };
        cases.push(tc);
        assert(cases@.map_values(|x: TestCase| x@) =~= before.push(tc@));
        if e >= c {
            assert(cases_from(toks_view(b@), k as int, c as int, before) == Ok::<_, ParseError>((before.push(tc@), false)));
            return Ok((cases, false, c));
        }
        if !punct_at(b, e, c, ',') {
            return Err(ParseError { kind: ErrorKind::Expected(Construct::Comma), at: e });
        }
        if e + 1 >= c {
            assert(cases_from(toks_view(b@), k as int, c as int, before) == Ok::<_, ParseError>((before.push(tc@), true)));
            return Ok((cases, true, c));
        }
        k = e + 1;
    }
}

impl TestHelper {
    /// Reads the whole buffer as one specification.
    pub fn parse(b: &Vec<Tok>) -> (r: Result<TestHelper, ParseError>)
        ensures
            match r {
                Ok(h) => test_helper_of(toks_view(b@)) == Ok::<_, ParseError>(h@),
                Err(x) => test_helper_of(toks_view(b@)) == Err::<TestHelperV, _>(x),
            },
    {
        let len = b.len();
        let (static_attrs, p) = match parse_outer_attrs(b, 0, len) {
            Ok(x) => x,
            Err(x) => {
                return Err(x);
            },
        };
        let (separator, p1) = match Separator::parse(b, p, len) {
            Ok(x) => x,
            Err(x) => {
                return Err(x);
            },
        };
        let (helper, p2) = match parse_helper_path(b, p1, len) {
            Ok(x) => x,
            Err(x) => {
                return Err(x);
            },
        };
        let (static_args, p3) = if open_at(b, p2, len, Delim::Paren) {
            match FnArgs::parse(b, p2, len) {
                Ok((a, n)) => (Some(a), n),
                Err(x) => {
                    return Err(x);
                },
            }
        } else {
            (None, p2)
        };
        let (static_return_type, p4) = match ReturnType::try_parse(b, p3, len) {
            Ok(x) => x,
            Err(x) => {
                return Err(x);
            },
        };
        if !pair_at(b, p4, len, '=', '>') {
            return Err(ParseError { kind: ErrorKind::Expected(Construct::FatArrow), at: p4 });
        }
        let (cases, trailing_comma, c) = match parse_case_block(b, p4 + 2, len) {
            Ok(x) => x,
            Err(x) => {
                return Err(x);
            },
        };
        if c + 1 < len {
            return Err(ParseError { kind: ErrorKind::Expected(Construct::End), at: c + 1 });
        }
        let out = TestHelper {
            static_attrs,
            separator,
            helper,
            static_args,
            static_return_type,
            farrow: p4,
            open: p4 + 2,
            cases,
            trailing_comma,
            close: c,
        };
        Ok(out)
    }
}

} // verus!
