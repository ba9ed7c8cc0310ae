//! Rendering generated units as the tokens of test functions.
use vstd::prelude::*;
use crate::ast::{Span, TestHelper};
use crate::resolve::{resolved, units_view, GeneratedUnit, GeneratedUnitV};
use crate::token::{copy_tok, toks_view, Delim, Tok, TokV};

verus! {

/// The tokens of span `s`; none for a span outside the buffer.
pub open spec fn slice(b: Seq<TokV>, s: Span) -> Seq<TokV> {
    if s.start <= s.end <= b.len() {
        b.subrange(s.start as int, s.end as int)
    } else {
        seq![]
    }
}

/// The tokens of each span in turn.
pub open spec fn slices(b: Seq<TokV>, spans: Seq<Span>) -> Seq<TokV>
    decreases spans.len(),
{
    if spans.len() == 0 {
        seq![]
    } else {
        slices(b, spans.drop_last()) + slice(b, spans.last())
    }
}

pub open spec fn comma() -> TokV {
    TokV::Punct(',', false)
}

/// The tokens of each span in turn, a comma between two.
pub open spec fn joined(b: Seq<TokV>, spans: Seq<Span>) -> Seq<TokV>
    decreases spans.len(),
{
    if spans.len() == 0 {
        seq![]
    } else if spans.len() == 1 {
        slice(b, spans[0])
    } else {
        joined(b, spans.drop_last()) + seq![comma()] + slice(b, spans.last())
    }
}

/// The token at `i`; none outside the buffer.
pub open spec fn token_at(b: Seq<TokV>, i: int) -> Seq<TokV> {
    if 0 <= i < b.len() {
        seq![b[i]]
    } else {
        seq![]
    }
}

/// `-> Type`, or nothing.
pub open spec fn return_tokens(b: Seq<TokV>, r: Option<Span>) -> Seq<TokV> {
    match r {
        Some(t) => seq![TokV::Punct('-', true), TokV::Punct('>', false)] + slice(b, t),
        None => seq![],
    }
}

/// `#[attr]... #[test] fn name() -> Type { helper(args) }`
pub open spec fn unit_tokens(b: Seq<TokV>, u: GeneratedUnitV) -> Seq<TokV> {
    slices(b, u.attrs) + seq![
        TokV::Punct('#', false),
        TokV::Open(Delim::Bracket),
        TokV::Ident("test"@),
        TokV::Close(Delim::Bracket),
        TokV::Ident("fn"@),
    ] + token_at(b, u.name as int) + seq![TokV::Open(Delim::Paren), TokV::Close(Delim::Paren)]
        + return_tokens(b, u.return_type) + seq![TokV::Open(Delim::Brace)] + slice(b, u.helper)
        + seq![TokV::Open(Delim::Paren)] + joined(b, u.args) + seq![
        TokV::Close(Delim::Paren),
        TokV::Close(Delim::Brace),
    ]
}

/// The units' tokens one after another.
pub open spec fn units_tokens(b: Seq<TokV>, us: Seq<GeneratedUnitV>) -> Seq<TokV>
    decreases us.len(),
{
    if us.len() == 0 {
        seq![]
    } else {
        units_tokens(b, us.drop_last()) + unit_tokens(b, us.last())
    }
}

fn push_tok(out: &mut Vec<Tok>, t: Tok)
    ensures
        toks_view(final(out)@) == toks_view(old(out)@).push(t@),
{
    let ghost before = out@;
    out.push(t);
    assert(toks_view(out@) =~= toks_view(before).push(t@));
}

/// Appends a copy of the token at `i`, if there is one.
pub fn push_at(out: &mut Vec<Tok>, b: &Vec<Tok>, i: usize)
    ensures
        toks_view(final(out)@) == toks_view(old(out)@) + token_at(toks_view(b@), i as int),
{
    let s = Span { start: i, end: if i < b.len() { i + 1 } else { i } };
    push_span(out, b, s);
    assert(slice(toks_view(b@), s) =~= token_at(toks_view(b@), i as int));
}

fn word(w: &str) -> (r: Tok)
    ensures
        r@ == TokV::Ident(w@),
{
    Tok::Ident(w.to_owned())
}

/// Appends a copy of the tokens of `s`.
pub fn push_span(out: &mut Vec<Tok>, b: &Vec<Tok>, s: Span)
    ensures
        toks_view(final(out)@) == toks_view(old(out)@) + slice(toks_view(b@), s),
{
    if s.start <= s.end && s.end <= b.len() {
        let mut k: usize = s.start;
        while k < s.end
            invariant
                s.start <= k <= s.end <= b@.len(),
                toks_view(out@) == toks_view(old(out)@) + toks_view(b@).subrange(s.start as int, k as int),
            decreases s.end - k,
        {
            let ghost before = out@;
            out.push(copy_tok(&b[k]));
            assert(toks_view(out@) =~= toks_view(before).push(b@[k as int]@));
            assert(toks_view(b@).subrange(s.start as int, k + 1) =~= toks_view(b@).subrange(
                s.start as int,
                k as int,
            ).push(b@[k as int]@));
            k = k + 1;
        }
    } else {
        assert(toks_view(out@) =~= toks_view(out@) + seq![]);
    }
}

/// Appends the tokens of each span in turn.
pub fn push_spans(out: &mut Vec<Tok>, b: &Vec<Tok>, spans: &Vec<Span>)
    ensures
        toks_view(final(out)@) == toks_view(old(out)@) + slices(toks_view(b@), spans@),
{
    let mut i: usize = 0;
    while i < spans.len()
        invariant
            i <= spans@.len(),
            toks_view(out@) == toks_view(old(out)@) + slices(toks_view(b@), spans@.subrange(0, i as int)),
        decreases spans@.len() - i,
    {
        push_span(out, b, spans[i]);
        assert(spans@.subrange(0, i + 1).drop_last() =~= spans@.subrange(0, i as int));
        i = i + 1;
    }
    assert(spans@.subrange(0, i as int) =~= spans@);
}

/// Appends the tokens of each span in turn, a comma between two.
fn push_joined(out: &mut Vec<Tok>, b: &Vec<Tok>, spans: &Vec<Span>)
    ensures
        toks_view(final(out)@) == toks_view(old(out)@) + joined(toks_view(b@), spans@),
{
    let mut i: usize = 0;
    while i < spans.len()
        invariant
            i <= spans@.len(),
            toks_view(out@) == toks_view(old(out)@) + joined(toks_view(b@), spans@.subrange(0, i as int)),
        decreases spans@.len() - i,
    {
        if i > 0 {
            push_tok(out, Tok::Punct(',', false));
        }
        push_span(out, b, spans[i]);
        assert(spans@.subrange(0, i + 1).drop_last() =~= spans@.subrange(0, i as int));
        i = i + 1;
    }
    assert(spans@.subrange(0, i as int) =~= spans@);
}

impl GeneratedUnit {
    /// Appends the test function of this unit.
    pub fn to_tokens(&self, b: &Vec<Tok>, out: &mut Vec<Tok>)
        ensures
            toks_view(final(out)@) == toks_view(old(out)@) + unit_tokens(toks_view(b@), self@),
    {
        let ghost tb = toks_view(b@);
        let ghost start = toks_view(out@);
        push_spans(out, b, &self.attrs);
        let ghost p1 = slices(tb, self@.attrs);
        push_tok(out, Tok::Punct('#', false));
        push_tok(out, Tok::Open(Delim::Bracket));
        push_tok(out, word("test"));
        push_tok(out, Tok::Close(Delim::Bracket));
        push_tok(out, word("fn"));
        let ghost p2 = p1 + seq![
            TokV::Punct('#', false),
            TokV::Open(Delim::Bracket),
            TokV::Ident("test"@),
            TokV::Close(Delim::Bracket),
            TokV::Ident("fn"@),
        ];
        assert(toks_view(out@) =~= start + p2);
        push_at(out, b, self.name);
        push_tok(out, Tok::Open(Delim::Paren));
        push_tok(out, Tok::Close(Delim::Paren));
        let ghost p3 = p2 + token_at(tb, self.name as int) + seq![TokV::Open(Delim::Paren), TokV::Close(Delim::Paren)];
        assert(toks_view(out@) =~= start + p3);
        if let Some(t) = self.return_type {
            push_tok(out, Tok::Punct('-', true));
            push_tok(out, Tok::Punct('>', false));
            push_span(out, b, t);
        }
        let ghost p4 = p3 + return_tokens(tb, self@.return_type);
        assert(toks_view(out@) =~= start + p4);
        push_tok(out, Tok::Open(Delim::Brace));
        push_span(out, b, self.helper);
        push_tok(out, Tok::Open(Delim::Paren));
        let ghost p5 = p4 + seq![TokV::Open(Delim::Brace)] + slice(tb, self.helper) + seq![TokV::Open(Delim::Paren)];
        assert(toks_view(out@) =~= start + p5);
        push_joined(out, b, &self.args);
        push_tok(out, Tok::Close(Delim::Paren));
        push_tok(out, Tok::Close(Delim::Brace));
        let ghost p6 = p5 + joined(tb, self@.args) + seq![TokV::Close(Delim::Paren), TokV::Close(Delim::Brace)];
        assert(toks_view(out@) =~= start + p6);
        assert(p6 == unit_tokens(tb, self@));
    }
}

/// The test functions of `units`, one after another.
pub fn emit_units(b: &Vec<Tok>, units: &Vec<GeneratedUnit>) -> (r: Vec<Tok>)
    ensures
        toks_view(r@) == units_tokens(toks_view(b@), units_view(units@)),
{
    let mut out: Vec<Tok> = Vec::new();
    let mut i: usize = 0;
    assert(toks_view(out@) =~= seq![]);
    while i < units.len()
        invariant
            i <= units@.len(),
            toks_view(out@) == units_tokens(toks_view(b@), units_view(units@.subrange(0, i as int))),
        decreases units@.len() - i,
    {
        units[i].to_tokens(b, &mut out);
        assert(units_view(units@.subrange(0, i + 1)).drop_last() =~= units_view(units@.subrange(0, i as int)));
        i = i + 1;
    }
    assert(units@.subrange(0, i as int) =~= units@);
    out
}

impl TestHelper {
    /// The test functions that this specification stands for, read from `b`.
    pub fn restructure(&self, b: &Vec<Tok>) -> (r: Vec<Tok>)
        ensures
            toks_view(r@) == units_tokens(toks_view(b@), resolved(self@)),
    {
        let units = self.resolve();
        emit_units(b, &units)
    }
}

} // verus!
