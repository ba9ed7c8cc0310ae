//! The syntax tree of a test specification, and the errors of reading one.
//!
//! Expressions, types, attributes and the helper path are not parsed: each is
//! a span of token indices into the buffer it was read from.
use vstd::prelude::*;

verus! {

/// The tokens `b[start..end]` of the buffer a node was read from.
#[derive(Clone, Copy, Debug, PartialEq, Eq, Structural)]
pub struct Span {
    pub start: usize,
    pub end: usize,
}

/// The keyword that introduces the helper.
#[derive(Clone, Copy, Debug, PartialEq, Eq, Structural)]
pub enum SeparatorKind {
    Fn,
    Struct,
    Enum,
}

/// The keyword before the helper, and where it stands.
#[derive(Clone, Copy, Debug, PartialEq, Eq, Structural)]
pub struct Separator {
    pub kind: SeparatorKind,
    pub at: usize,
}

/// `-> Type`: the arrow's first token, and the type.
#[derive(Clone, Copy, Debug, PartialEq, Eq, Structural)]
pub struct ReturnType {
    pub arrow: usize,
    pub ty: Span,
}

/// A parenthesised, comma separated, non-empty list of arguments.
#[derive(Clone, Debug)]
pub struct FnArgs {
    pub open: usize,
    pub args: Vec<Span>,
    pub close: usize,
}

pub struct FnArgsV {
    pub open: usize,
    pub args: Seq<Span>,
    pub close: usize,
}

impl View for FnArgs {
    type V = FnArgsV;

    open spec fn view(&self) -> FnArgsV {
        FnArgsV { open: self.open, args: self.args@, close: self.close }
    }
}

/// The braced body of a test case: attributes, arguments, return type.
#[derive(Clone, Debug)]
pub struct CaseArgs {
    pub open: usize,
    pub attrs: Vec<Span>,
    pub args: FnArgs,
    pub return_type: Option<ReturnType>,
    pub close: usize,
}

pub struct CaseArgsV {
    pub open: usize,
    pub attrs: Seq<Span>,
    pub args: FnArgsV,
    pub return_type: Option<ReturnType>,
    pub close: usize,
}

impl View for CaseArgs {
    type V = CaseArgsV;

    open spec fn view(&self) -> CaseArgsV {
        CaseArgsV {
            open: self.open,
            attrs: self.attrs@,
            args: self.args@,
            return_type: self.return_type,
            close: self.close,
        }
    }
}

/// `name: { ... }`; the colon stands right after the name.
#[derive(Clone, Debug)]
pub struct TestCase {
    pub fn_name: usize,
    pub args: CaseArgs,
}

pub struct TestCaseV {
    pub fn_name: usize,
    pub args: CaseArgsV,
}

impl View for TestCase {
    type V = TestCaseV;

    open spec fn view(&self) -> TestCaseV {
        TestCaseV { fn_name: self.fn_name, args: self.args@ }
    }
}

/// A whole specification: block-wide settings and the cases.
#[derive(Clone, Debug)]
pub struct TestHelper {
    pub static_attrs: Vec<Span>,
    pub separator: Separator,
    pub helper: Span,
    pub static_args: Option<FnArgs>,
    pub static_return_type: Option<ReturnType>,
    /// First token of `=>`.
    pub farrow: usize,
    pub open: usize,
    pub cases: Vec<TestCase>,
    /// Whether a comma follows the last case.
    pub trailing_comma: bool,
    pub close: usize,
}

pub struct TestHelperV {
    pub static_attrs: Seq<Span>,
    pub separator: Separator,
    pub helper: Span,
    pub static_args: Option<FnArgsV>,
    pub static_return_type: Option<ReturnType>,
    pub farrow: usize,
    pub open: usize,
    pub cases: Seq<TestCaseV>,
    pub trailing_comma: bool,
    pub close: usize,
}

pub open spec fn opt_args_view(a: Option<FnArgs>) -> Option<FnArgsV> {
    match a {
        Some(x) => Some(x@),
        None => None,
    }
}

impl View for TestHelper {
    type V = TestHelperV;

    open spec fn view(&self) -> TestHelperV {
        TestHelperV {
            static_attrs: self.static_attrs@,
            separator: self.separator,
            helper: self.helper,
            static_args: opt_args_view(self.static_args),
            static_return_type: self.static_return_type,
            farrow: self.farrow,
            open: self.open,
            cases: self.cases@.map_values(|c: TestCase| c@),
            trailing_comma: self.trailing_comma,
            close: self.close,
        }
    }
}

/// The construct that a failed production expected.
#[derive(Clone, Copy, Debug, PartialEq, Eq, Structural)]
pub enum Construct {
    /// Attributes or the keyword before the helper.
    HelperKind,
    /// The helper's path.
    Helper,
    /// `=>` before the cases.
    FatArrow,
    /// The braces around the cases, or around a case's body.
    Braces,
    /// A test case's name and its colon.
    CaseName,
    /// Attributes or the parenthesised arguments of a case.
    CaseArgs,
    /// An argument of a parenthesised list.
    Args,
    /// The type after `->`.
    ReturnType,
    /// The comma between two cases.
    Comma,
    /// Nothing more: a token was left over.
    End,
    /// A group whose closing delimiter is missing.
    Delimiters,
}

#[derive(Clone, Copy, Debug, PartialEq, Eq, Structural)]
pub enum ErrorKind {
    Expected(Construct),
    /// The braces of the case list hold no case.
    EmptyCaseList,
    /// A case gives no arguments.
    EmptyArgList(EmptyArgs),
}

/// How an argument list came to be empty.
#[derive(Clone, Copy, Debug, PartialEq, Eq, Structural)]
pub enum EmptyArgs {
    /// A case body ends without a parenthesised list.
    NoParentheses,
    /// The parentheses hold nothing.
    EmptyParentheses,
}

/// Why a specification could not be read, and the index of the token
/// (or the end of its group) where that was found.
#[derive(Clone, Copy, Debug, PartialEq, Eq, Structural)]
pub struct ParseError {
    pub kind: ErrorKind,
    pub at: usize,
}

pub open spec fn message_of(k: ErrorKind) -> Seq<char> {
    match k {
        ErrorKind::Expected(Construct::HelperKind) => "expected helper kind and path"@,
        ErrorKind::Expected(Construct::Helper) => "expected helper function"@,
        ErrorKind::Expected(Construct::FatArrow) => "expected `=>`"@,
        ErrorKind::Expected(Construct::Braces) => "expected curly braces"@,
        ErrorKind::Expected(Construct::CaseName) => "expected test case name"@,
        ErrorKind::Expected(Construct::CaseArgs) => "expected attributes or function parameters"@,
        ErrorKind::Expected(Construct::Args) => "expected function arguments"@,
        ErrorKind::Expected(Construct::ReturnType) => "expected a return type"@,
        ErrorKind::Expected(Construct::Comma) => "expected `,`"@,
        ErrorKind::Expected(Construct::End) => "unexpected token"@,
        ErrorKind::Expected(Construct::Delimiters) => "unbalanced delimiters"@,
        ErrorKind::EmptyCaseList => "expected at least one test case"@,
        ErrorKind::EmptyArgList(EmptyArgs::NoParentheses) => "expected attributes or function parameters"@,
        ErrorKind::EmptyArgList(EmptyArgs::EmptyParentheses) => "expected function arguments"@,
    }
}

impl ParseError {
    /// The diagnostic text of the error.
    pub fn message(&self) -> (r: String)
        ensures
            r@ == message_of(self.kind),
    {
        let s = match self.kind {
            ErrorKind::Expected(Construct::HelperKind) => "expected helper kind and path",
            ErrorKind::Expected(Construct::Helper) => "expected helper function",
            ErrorKind::Expected(Construct::FatArrow) => "expected `=>`",
            ErrorKind::Expected(Construct::Braces) => "expected curly braces",
            ErrorKind::Expected(Construct::CaseName) => "expected test case name",
            ErrorKind::Expected(Construct::CaseArgs) => "expected attributes or function parameters",
            ErrorKind::Expected(Construct::Args) => "expected function arguments",
            ErrorKind::Expected(Construct::ReturnType) => "expected a return type",
            ErrorKind::Expected(Construct::Comma) => "expected `,`",
            ErrorKind::Expected(Construct::End) => "unexpected token",
            ErrorKind::Expected(Construct::Delimiters) => "unbalanced delimiters",
            ErrorKind::EmptyCaseList => "expected at least one test case",
            ErrorKind::EmptyArgList(EmptyArgs::NoParentheses) => "expected attributes or function parameters",
            ErrorKind::EmptyArgList(EmptyArgs::EmptyParentheses) => "expected function arguments",
        };
        s.to_owned()
    }
}

} // verus!
