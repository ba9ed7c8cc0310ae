//! Lowering a specification into one unit per test case, merging the
//! block-wide attributes, arguments and return type with each case's own.
use vstd::prelude::*;
use crate::ast::{ReturnType, Span, TestCase, TestCaseV, TestHelper, TestHelperV};

verus! {

/// A test function ready to emit: its name token, decorations, the helper,
/// the arguments of the call, and the declared return type.
#[derive(Clone, Debug)]
pub struct GeneratedUnit {
    pub name: usize,
    pub attrs: Vec<Span>,
    pub helper: Span,
    pub args: Vec<Span>,
    pub return_type: Option<Span>,
}

pub struct GeneratedUnitV {
    pub name: usize,
    pub attrs: Seq<Span>,
    pub helper: Span,
    pub args: Seq<Span>,
    pub return_type: Option<Span>,
}

impl View for GeneratedUnit {
    type V = GeneratedUnitV;

    open spec fn view(&self) -> GeneratedUnitV {
        GeneratedUnitV {
            name: self.name,
            attrs: self.attrs@,
            helper: self.helper,
            args: self.args@,
            return_type: self.return_type,
        }
    }
}

pub open spec fn units_view(v: Seq<GeneratedUnit>) -> Seq<GeneratedUnitV> {
    v.map_values(|u: GeneratedUnit| u@)
}

/// The block-wide arguments; none when the block gives none.
pub open spec fn static_args_of(h: TestHelperV) -> Seq<Span> {
    match h.static_args {
        Some(a) => a.args,
        None => seq![],
    }
}

pub open spec fn type_of(r: Option<ReturnType>) -> Option<Span> {
    match r {
        Some(t) => Some(t.ty),
        None => None,
    }
}

/// The case's own return type, else the block's, else none.
pub open spec fn effective_return_type(h: TestHelperV, c: TestCaseV) -> Option<Span> {
    match c.args.return_type {
        Some(t) => Some(t.ty),
        None => type_of(h.static_return_type),
    }
}

/// The unit generated for case `c` of `h`.
pub open spec fn unit_of(h: TestHelperV, c: TestCaseV) -> GeneratedUnitV {
    GeneratedUnitV {
        name: c.fn_name,
        attrs: h.static_attrs + c.args.attrs,
        helper: h.helper,
        args: static_args_of(h) + c.args.args.args,
        return_type: effective_return_type(h, c),
    }
}

/// One unit per case, in the order of the cases.
pub open spec fn resolved(h: TestHelperV) -> Seq<GeneratedUnitV> {
    h.cases.map_values(|c: TestCaseV| unit_of(h, c))
}

/// `a ++ b`, copied.
fn concat_spans(a: &Vec<Span>, b: &Vec<Span>) -> (r: Vec<Span>)
    ensures
        r@ == a@ + b@,
{
    let mut r: Vec<Span> = Vec::new();
    let mut i: usize = 0;
    while i < a.len()
        invariant
            i <= a@.len(),
            r@ == a@.subrange(0, i as int),
        decreases a@.len() - i,
    {
        r.push(a[i]);
        assert(a@.subrange(0, i + 1) =~= a@.subrange(0, i as int).push(a@[i as int]));
        i = i + 1;
    }
    let mut j: usize = 0;
    while j < b.len()
        invariant
            i == a@.len(),
            j <= b@.len(),
            r@ == a@ + b@.subrange(0, j as int),
        decreases b@.len() - j,
    {
        r.push(b[j]);
        assert(a@ + b@.subrange(0, j + 1) =~= (a@ + b@.subrange(0, j as int)).push(b@[j as int]));
        j = j + 1;
    }
    assert(a@.subrange(0, i as int) =~= a@);
    assert(b@.subrange(0, j as int) =~= b@);
    r
}

impl TestHelper {
    /// The unit of one case: block-wide attributes and arguments first,
    /// then the case's; the case's return type over the block's.
    pub fn resolve_case(&self, case: &TestCase) -> (r: GeneratedUnit)
        ensures
            r@ == unit_of(self@, case@),
    {
        let empty: Vec<Span> = Vec::new();
        let static_args = match &self.static_args {
            Some(a) => &a.args,
            None => &empty,
        };
        let return_type = match case.args.return_type {
            Some(t) => Some(t.ty),
            None => match self.static_return_type {
                Some(t) => Some(t.ty),
                None => None,
            },
        };
        GeneratedUnit {
            name: case.fn_name,
            attrs: concat_spans(&self.static_attrs, &case.args.attrs),
            helper: self.helper,
            args: concat_spans(static_args, &case.args.args.args),
            return_type,
        }
    }

    /// One unit per case, in the order of the cases.
    pub fn resolve(&self) -> (r: Vec<GeneratedUnit>)
        ensures
            units_view(r@) == resolved(self@),
    {
        let mut out: Vec<GeneratedUnit> = Vec::new();
        let mut i: usize = 0;
        while i < self.cases.len()
            invariant
                i <= self.cases@.len(),
                units_view(out@) == resolved(self@).subrange(0, i as int),
            decreases self.cases@.len() - i,
        {
            let u = self.resolve_case(&self.cases[i]);
            let ghost before = out@;
            out.push(u);
            assert(units_view(out@) =~= units_view(before).push(u@));
            assert(resolved(self@).subrange(0, i + 1) =~= resolved(self@).subrange(0, i as int).push(u@));
            i = i + 1;
        }
        assert(resolved(self@).subrange(0, i as int) =~= resolved(self@));
        out
    }
}

} // verus!
