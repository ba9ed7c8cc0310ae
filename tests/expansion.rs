use proc_macro2::{Delimiter, Group, Ident, Literal, Punct, Spacing, Span, TokenStream, TokenTree};
use test_gen::ast::{
    CaseArgs, Construct, EmptyArgs, ErrorKind, FnArgs, ParseError, ReturnType, SeparatorKind, TestCase,
    TestHelper,
};
use test_gen::test_gen;
use test_gen::token::{Delim, Tok};

fn delim_of(d: Delimiter) -> Delim {
    match d {
        Delimiter::Parenthesis => Delim::Paren,
        Delimiter::Bracket => Delim::Bracket,
        Delimiter::Brace => Delim::Brace,
        Delimiter::None => Delim::Invisible,
    }
}

fn delimiter_of(d: Delim) -> Delimiter {
    match d {
        Delim::Paren => Delimiter::Parenthesis,
        Delim::Bracket => Delimiter::Bracket,
        Delim::Brace => Delimiter::Brace,
        Delim::Invisible => Delimiter::None,
    }
}

fn flatten(ts: TokenStream, out: &mut Vec<Tok>) {
    for tt in ts {
        match tt {
            TokenTree::Ident(i) => out.push(Tok::Ident(i.to_string())),
            TokenTree::Punct(p) => out.push(Tok::Punct(p.as_char(), p.spacing() == Spacing::Joint)),
            TokenTree::Literal(l) => out.push(Tok::Lit(l.to_string())),
            TokenTree::Group(g) => {
                let d = delim_of(g.delimiter());
                out.push(Tok::Open(d));
                flatten(g.stream(), out);
                out.push(Tok::Close(d));
            }
        }
    }
}

fn lex(src: &str) -> Vec<Tok> {
    let ts: TokenStream = src.parse().expect("string could not be parsed as tokens");
    let mut out = Vec::new();
    flatten(ts, &mut out);
    out
}

fn render(toks: &[Tok]) -> TokenStream {
    let mut stack: Vec<(Delim, Vec<TokenTree>)> = Vec::new();
    let mut top: Vec<TokenTree> = Vec::new();
    for t in toks {
        match t {
            Tok::Ident(s) => top.push(TokenTree::Ident(Ident::new(s, Span::call_site()))),
            Tok::Punct(c, j) => {
                let spacing = if *j { Spacing::Joint } else { Spacing::Alone };
                top.push(TokenTree::Punct(Punct::new(*c, spacing)));
            }
            Tok::Lit(s) => top.push(TokenTree::Literal(s.parse::<Literal>().expect("literal"))),
            Tok::Open(d) => {
                let outer = std::mem::take(&mut top);
                stack.push((*d, outer));
            }
            Tok::Close(_) => {
                let (d, outer) = stack.pop().expect("balanced tokens");
                let inner: TokenStream = std::mem::replace(&mut top, outer).into_iter().collect();
                top.push(TokenTree::Group(Group::new(delimiter_of(d), inner)));
            }
        }
    }
    assert!(stack.is_empty());
    top.into_iter().collect()
}

fn text(src: &str) -> String {
    let ts: TokenStream = src.parse().expect("string could not be parsed as tokens");
    ts.to_string()
}

fn expand(src: &str) -> Result<String, ParseError> {
    let toks = lex(src);
    test_gen(&toks).map(|out| render(&out).to_string())
}

fn error_of(src: &str) -> ParseError {
    match expand(src) {
        Ok(out) => panic!("expected an error, got {}", out),
        Err(e) => e,
    }
}

fn expected(c: Construct) -> ErrorKind {
    ErrorKind::Expected(c)
}

#[test]
fn return_type_parsing() {
    let src = "-> usize";
    let toks = lex(src);
    let (r, n) = ReturnType::parse(&toks, 0, toks.len()).expect("tokens could not be parsed as type");
    assert_eq!(n, toks.len());
    let mut out = Vec::new();
    r.to_tokens(&toks, &mut out);
    assert_eq!(render(&out).to_string(), text(src));
}

#[test]
fn fn_args_parsing() {
    let src = "(1, 2)";
    let toks = lex(src);
    let (a, n) = FnArgs::parse(&toks, 0, toks.len()).expect("tokens could not be parsed as type");
    assert_eq!(n, toks.len());
    let mut out = Vec::new();
    a.to_tokens(&toks, &mut out);
    assert_eq!(render(&out).to_string(), text(src));
}

#[test]
fn case_args_parsing() {
    let src = "{ #[ignore] (1, 2) -> usize }";
    let toks = lex(src);
    let (a, n) = CaseArgs::parse(&toks, 0, toks.len()).expect("tokens could not be parsed as type");
    assert_eq!(n, toks.len());
    let mut out = Vec::new();
    a.to_tokens(&toks, &mut out);
    assert_eq!(render(&out).to_string(), text(src));
}

#[test]
fn test_case_parsing() {
    let src = "test: { #[ignore] (1, 2) -> usize }";
    let toks = lex(src);
    let (t, n) = TestCase::parse(&toks, 0, toks.len()).expect("tokens could not be parsed as type");
    assert_eq!(n, toks.len());
    let mut out = Vec::new();
    t.to_tokens(&toks, &mut out);
    assert_eq!(render(&out).to_string(), text(src));
}

#[test]
fn test_helper_parsing() {
    let src = "#[should_panic] fn Into::into -> (usize, usize) => { test: { #[ignore] (1, 2) -> usize } }";
    let toks = lex(src);
    let h = TestHelper::parse(&toks).expect("tokens could not be parsed as type");
    let mut out = Vec::new();
    h.to_tokens(&toks, &mut out);
    assert_eq!(render(&out).to_string(), text(src));
}

#[test]
fn printing_keeps_trailing_comma_and_static_args() {
    let src = "#[ignore] #[should_panic] struct ::a::B (1, [2, 3]) -> R<u8, E> => { x: { (4) }, y: { #[ignore] (5, 6) }, }";
    let toks = lex(src);
    let h = TestHelper::parse(&toks).expect("specification");
    assert!(h.trailing_comma);
    assert_eq!(h.cases.len(), 2);
    let mut out = Vec::new();
    h.to_tokens(&toks, &mut out);
    assert_eq!(render(&out).to_string(), text(src));
}

#[test]
fn square_two_cases() {
    let out = expand("fn square => { two: {(2,4)}, four: {(4,16)} }").unwrap();
    assert_eq!(
        out,
        text("#[test] fn two() { square(2, 4) } #[test] fn four() { square(4, 16) }")
    );
}

#[test]
fn static_argument_comes_first() {
    let out = expand("fn power(5) => { five_cubed: {(3)} }").unwrap();
    assert_eq!(out, text("#[test] fn five_cubed() { power(5, 3) }"));
}

#[test]
fn attributes_concatenated_with_duplicates() {
    let out = expand("#[should_panic] fn check => { c: { #[ignore] #[should_panic] (false) } }").unwrap();
    assert_eq!(
        out,
        text("#[should_panic] #[ignore] #[should_panic] #[test] fn c() { check(false) }")
    );
}

#[test]
fn case_return_type_overrides_block() {
    let out = expand("fn run -> OtherOutcome => { c: { (1) -> Outcome } }").unwrap();
    assert_eq!(out, text("#[test] fn c() -> Outcome { run(1) }"));
}

#[test]
fn block_return_type_applies_without_override() {
    let out = expand("fn run -> Result<(), String> => { a: { (1) }, b: { (2) -> u8 } }").unwrap();
    assert_eq!(
        out,
        text("#[test] fn a() -> Result<(), String> { run(1) } #[test] fn b() -> u8 { run(2) }")
    );
}

#[test]
fn case_order_is_kept() {
    let out = expand("fn f => { c: {(3)}, a: {(1)}, b: {(2)} }").unwrap();
    assert_eq!(
        out,
        text("#[test] fn c() { f(3) } #[test] fn a() { f(1) } #[test] fn b() { f(2) }")
    );
}

#[test]
fn static_and_case_arguments_concatenate() {
    let out = expand("fn f(1, 2) => { c: {(3, 4)} }").unwrap();
    assert_eq!(out, text("#[test] fn c() { f(1, 2, 3, 4) }"));
}

#[test]
fn nested_expressions_and_paths_pass_through() {
    let out = expand("enum ::std::convert::identity => { v: { (vec![(1, 2), (3, 4)], |x| x + 1) } }").unwrap();
    assert_eq!(
        out,
        text("#[test] fn v() { ::std::convert::identity(vec![(1, 2), (3, 4)], |x| x + 1) }")
    );
}

#[test]
fn separator_kinds() {
    for (word, kind) in [
        ("fn", SeparatorKind::Fn),
        ("struct", SeparatorKind::Struct),
        ("enum", SeparatorKind::Enum),
    ] {
        let toks = lex(&format!("{} Into::into => {{ a: {{(1)}} }}", word));
        let h = TestHelper::parse(&toks).unwrap();
        assert_eq!(h.separator.kind, kind);
        assert_eq!(h.separator.at, 0);
    }
}

#[test]
fn trailing_comma_allowed_after_last_case() {
    let out = expand("fn f => { a: {(1)}, }").unwrap();
    assert_eq!(out, text("#[test] fn a() { f(1) }"));
}

#[test]
fn trailing_comma_refused_in_arguments() {
    let e = error_of("fn f => { a: {(1,)} }");
    assert_eq!(e.kind, expected(Construct::Args));
}

#[test]
fn empty_argument_between_commas_refused() {
    let e = error_of("fn f => { a: {(1,,2)} }");
    assert_eq!(e.kind, expected(Construct::Args));
}

#[test]
fn empty_case_block_is_an_error() {
    let e = error_of("fn f => {}");
    assert_eq!(e.kind, ErrorKind::EmptyCaseList);
    assert_eq!(e.at, 5);
}

#[test]
fn case_without_arguments_is_an_error() {
    let none = ErrorKind::EmptyArgList(EmptyArgs::NoParentheses);
    let empty = ErrorKind::EmptyArgList(EmptyArgs::EmptyParentheses);
    assert_eq!(error_of("fn f => { a: {} }").kind, none);
    let e = error_of("fn f => { a: { #[ignore] } }");
    assert_eq!(e.kind, none);
    assert_eq!(e.message(), "expected attributes or function parameters");
    let e = error_of("fn f => { a: { () } }");
    assert_eq!(e.kind, empty);
    assert_eq!(e.message(), "expected function arguments");
}

#[test]
fn empty_static_arguments_are_an_error() {
    assert_eq!(
        error_of("fn f() => { a: {(1)} }").kind,
        ErrorKind::EmptyArgList(EmptyArgs::EmptyParentheses)
    );
}

#[test]
fn missing_helper_kind() {
    let e = error_of("#[ignore] square => { a: {(1)} }");
    assert_eq!(e.kind, expected(Construct::HelperKind));
    assert_eq!(e.at, 4);
}

#[test]
fn missing_helper_path() {
    let e = error_of("fn => { a: {(1)} }");
    assert_eq!(e.kind, expected(Construct::Helper));
    assert_eq!(e.at, 1);
}

#[test]
fn missing_fat_arrow() {
    assert_eq!(error_of("fn f { a: {(1)} }").kind, expected(Construct::FatArrow));
    assert_eq!(error_of("fn f = > { a: {(1)} }").kind, expected(Construct::FatArrow));
}

#[test]
fn missing_case_braces() {
    assert_eq!(error_of("fn f => a").kind, expected(Construct::Braces));
    assert_eq!(error_of("fn f => { a: (1) }").kind, expected(Construct::Braces));
}

#[test]
fn missing_colon_points_at_case_name() {
    let e = error_of("fn f => { a {(1)} }");
    assert_eq!(e.kind, expected(Construct::CaseName));
    assert_eq!(e.at, 5);
    assert_eq!(error_of("fn f => { 1: {(1)} }").kind, expected(Construct::CaseName));
}

#[test]
fn case_body_without_parentheses() {
    assert_eq!(error_of("fn f => { a: { 1 } }").kind, expected(Construct::CaseArgs));
}

#[test]
fn missing_return_type() {
    assert_eq!(error_of("fn f -> => { a: {(1)} }").kind, expected(Construct::ReturnType));
    assert_eq!(error_of("fn f => { a: {(1) -> } }").kind, expected(Construct::ReturnType));
}

#[test]
fn missing_comma_between_cases() {
    assert_eq!(error_of("fn f => { a: {(1)} b: {(2)} }").kind, expected(Construct::Comma));
}

#[test]
fn tokens_left_over() {
    assert_eq!(error_of("fn f => { a: {(1)} } x").kind, expected(Construct::End));
    assert_eq!(error_of("fn f => { a: {(1) x} }").kind, expected(Construct::End));
}

#[test]
fn unclosed_group() {
    let toks = vec![
        Tok::Ident("fn".to_string()),
        Tok::Ident("f".to_string()),
        Tok::Punct('=', true),
        Tok::Punct('>', false),
        Tok::Open(Delim::Brace),
    ];
    let e = test_gen(&toks).unwrap_err();
    assert_eq!(e, ParseError { kind: expected(Construct::Delimiters), at: 4 });
}

#[test]
fn error_messages() {
    let e = error_of("fn f => {}");
    assert_eq!(e.message(), "expected at least one test case");
    let e = error_of("fn f => { a {(1)} }");
    assert_eq!(e.message(), "expected test case name");
    let e = error_of("square => { a: {(1)} }");
    assert_eq!(e.message(), "expected helper kind and path");
    let e = error_of("fn f => { a: {(1,)} }");
    assert_eq!(e.message(), "expected function arguments");
}

#[test]
fn resolve_merges_block_and_case_settings() {
    let src = "#[a] fn h(1) -> T => { x: { #[b] #[a] (2) }, y: { (3) -> U } }";
    let toks = lex(src);
    let h = TestHelper::parse(&toks).unwrap();
    let units = h.resolve();
    assert_eq!(units.len(), 2);
    assert_eq!(units[0].name, h.cases[0].fn_name);
    assert_eq!(units[0].attrs.len(), 3);
    assert_eq!(units[0].attrs[0], h.static_attrs[0]);
    assert_eq!(units[0].attrs[1], h.cases[0].args.attrs[0]);
    assert_eq!(units[0].args.len(), 2);
    assert_eq!(units[0].args[0], h.static_args.as_ref().unwrap().args[0]);
    assert_eq!(units[0].return_type, Some(h.static_return_type.unwrap().ty));
    assert_eq!(units[1].return_type, Some(h.cases[1].args.return_type.unwrap().ty));
}

#[test]
fn reexpanding_printed_specification_is_stable() {
    let src = "#[ignore] fn f(0) -> u8 => { a: { #[should_panic] (1, 2) }, b: { (3) -> u16 }, }";
    let toks = lex(src);
    let h = TestHelper::parse(&toks).unwrap();
    let mut printed = Vec::new();
    h.to_tokens(&toks, &mut printed);
    let first = test_gen(&toks).unwrap();
    let second = test_gen(&printed).unwrap();
    assert_eq!(render(&first).to_string(), render(&second).to_string());
}

#[test]
fn helper_paths_with_generic_arguments() {
    let out = expand("fn Vec::<u8>::with_capacity => { a: {(1)} }").unwrap();
    assert_eq!(out, text("#[test] fn a() { Vec::<u8>::with_capacity(1) }"));
    let out = expand("fn str::parse::<u32> => { a: {(\"1\")} }").unwrap();
    assert_eq!(out, text("#[test] fn a() { str::parse::<u32>(\"1\") }"));
    let out = expand("fn Vec<u8>::new => { a: {(1)} }").unwrap();
    assert_eq!(out, text("#[test] fn a() { Vec<u8>::new(1) }"));
    let out = expand("fn From::<Box<dyn Fn(u8) -> u8>>::from => { a: {(f)} }").unwrap();
    assert_eq!(out, text("#[test] fn a() { From::<Box<dyn Fn(u8) -> u8>>::from(f) }"));
}

#[test]
fn unclosed_generic_arguments() {
    let e = error_of("fn f<u8 { a: {(1)} }");
    assert_eq!(e.kind, expected(Construct::Helper));
    assert_eq!(e.at, 2);
}

#[test]
fn helper_path_in_invisible_group() {
    let toks = vec![
        Tok::Ident("fn".to_string()),
        Tok::Open(Delim::Invisible),
        Tok::Ident("a".to_string()),
        Tok::Punct(':', true),
        Tok::Punct(':', false),
        Tok::Ident("b".to_string()),
        Tok::Close(Delim::Invisible),
        Tok::Punct('=', true),
        Tok::Punct('>', false),
        Tok::Open(Delim::Brace),
        Tok::Ident("c".to_string()),
        Tok::Punct(':', false),
        Tok::Open(Delim::Brace),
        Tok::Open(Delim::Paren),
        Tok::Lit("1".to_string()),
        Tok::Close(Delim::Paren),
        Tok::Close(Delim::Brace),
        Tok::Close(Delim::Brace),
    ];
    let h = TestHelper::parse(&toks).unwrap();
    assert_eq!(h.helper, test_gen::ast::Span { start: 1, end: 7 });
    let out = test_gen(&toks).unwrap();
    assert_eq!(out.len(), 19);
    assert!(matches!(out[9], Tok::Open(Delim::Invisible)));
    assert!(matches!(out[14], Tok::Close(Delim::Invisible)));
}

#[test]
fn parsed_cases_stay_in_source_order() {
    let toks = lex("fn f => { c: {(3)}, a: {(1)}, b: {(2)}, }");
    let h = TestHelper::parse(&toks).unwrap();
    assert_eq!(h.cases.len(), 3);
    assert_eq!(h.cases[0].fn_name, h.open + 1);
    for i in 0..2 {
        assert_eq!(h.cases[i + 1].fn_name, h.cases[i].args.close + 2);
    }
    assert_eq!(h.cases[2].args.close + 2, h.close);
    let names: Vec<String> = h
        .cases
        .iter()
        .map(|c| match &toks[c.fn_name] {
            Tok::Ident(s) => s.clone(),
            _ => String::new(),
        })
        .collect();
    assert_eq!(names, vec!["c", "a", "b"]);
}
