//! The token buffer that a specification is read from and emitted into.
//!
//! Token trees are flattened: a delimited group is an `Open` marker, the
//! group's contents, and a `Close` marker.
use vstd::prelude::*;

verus! {

/// The delimiter of a token group.
#[derive(Clone, Copy, Debug, PartialEq, Eq, Structural)]
pub enum Delim {
    Paren,
    Bracket,
    Brace,
    Invisible,
}

/// One token of the flattened buffer.
#[derive(Clone, Debug)]
pub enum Tok {
    /// An identifier or keyword, with its text.
    Ident(String),
    /// A punctuation character; the flag is true when the next character
    /// follows with no space (as the first `:` of `::`).
    Punct(char, bool),
    /// A literal, with its source text.
    Lit(String),
    /// Start of a delimited group.
    Open(Delim),
    /// End of a delimited group.
    Close(Delim),
}

/// A token as a mathematical value: text as a sequence of characters.
pub enum TokV {
    Ident(Seq<char>),
    Punct(char, bool),
    Lit(Seq<char>),
    Open(Delim),
    Close(Delim),
}

impl View for Tok {
    type V = TokV;

    open spec fn view(&self) -> TokV {
        match self {
            Tok::Ident(s) => TokV::Ident(s@),
            Tok::Punct(c, j) => TokV::Punct(*c, *j),
            Tok::Lit(s) => TokV::Lit(s@),
            Tok::Open(d) => TokV::Open(*d),
            Tok::Close(d) => TokV::Close(*d),
        }
    }
}

/// A token sequence as values.
pub open spec fn toks_view(b: Seq<Tok>) -> Seq<TokV> {
    b.map_values(|t: Tok| t@)
}

pub open spec fn is_punct(t: TokV, c: char) -> bool {
    match t {
        TokV::Punct(ch, _) => ch == c,
        _ => false,
    }
}

pub open spec fn is_joint_punct(t: TokV, c: char) -> bool {
    match t {
        TokV::Punct(ch, joint) => ch == c && joint,
        _ => false,
    }
}

pub open spec fn is_open(t: TokV) -> bool {
    t is Open
}

pub open spec fn is_open_of(t: TokV, d: Delim) -> bool {
    match t {
        TokV::Open(e) => e == d,
        _ => false,
    }
}

pub open spec fn is_close(t: TokV) -> bool {
    t is Close
}

pub open spec fn is_ident(t: TokV) -> bool {
    t is Ident
}

pub open spec fn is_word(t: TokV, w: Seq<char>) -> bool {
    match t {
        TokV::Ident(s) => s == w,
        _ => false,
    }
}

/// Index of the `Close` that ends the group whose contents start at `k`,
/// `depth` groups deep, searching below `bound`.
pub open spec fn close_scan(b: Seq<TokV>, k: int, bound: int, depth: nat) -> Option<int>
    decreases bound - k,
{
    if k < 0 || k >= bound || bound > b.len() {
        None
    } else if is_open(b[k]) {
        close_scan(b, k + 1, bound, depth + 1)
    } else if is_close(b[k]) {
        if depth == 0 {
            Some(k)
        } else {
            close_scan(b, k + 1, bound, (depth - 1) as nat)
        }
    } else {
        close_scan(b, k + 1, bound, depth)
    }
}

/// Index of the `Close` that matches the `Open` at `p`, below `bound`.
pub open spec fn close_of(b: Seq<TokV>, p: int, bound: int) -> Option<int> {
    match close_scan(b, p + 1, bound, 0) {
        Some(c) => if p < c < bound {
            Some(c)
        } else {
            None
        },
        None => None,
    }
}

pub proof fn lemma_close_scan_range(b: Seq<TokV>, k: int, bound: int, depth: nat)
    ensures
        close_scan(b, k, bound, depth) matches Some(c) ==> k <= c < bound && bound <= b.len()
            && is_close(b[c]),
    decreases bound - k,
{
    if k < 0 || k >= bound || bound > b.len() {
    } else if is_open(b[k]) {
        lemma_close_scan_range(b, k + 1, bound, depth + 1);
    } else if is_close(b[k]) {
        if depth != 0 {
            lemma_close_scan_range(b, k + 1, bound, (depth - 1) as nat);
        }
    } else {
        lemma_close_scan_range(b, k + 1, bound, depth);
    }
}

/// Finds the `Close` that matches the `Open` at `p`, below `bound`.
pub fn find_close(b: &Vec<Tok>, p: usize, bound: usize) -> (r: Option<usize>)
    requires
        bound <= b@.len(),
        p < bound,
    ensures
        match r {
            Some(c) => close_of(toks_view(b@), p as int, bound as int) == Some(c as int) && p < c < bound
                && is_close(toks_view(b@)[c as int]),
            None => close_of(toks_view(b@), p as int, bound as int) is None,
        },
{
    proof {
        lemma_close_scan_range(toks_view(b@), p + 1, bound as int, 0);
    }
    let mut k: usize = p + 1;
    let mut depth: usize = 0;
    while k < bound
        invariant
            bound <= b@.len(),
            p < k <= bound,
            depth < k,
            close_scan(toks_view(b@), p + 1, bound as int, 0) == close_scan(toks_view(b@), k as int, bound as int, depth as nat),
        decreases bound - k,
    {
        match &b[k] {
            Tok::Open(_) => {
                depth = depth + 1;
            },
            Tok::Close(_) => {
                if depth == 0 {
                    return Some(k);
                }
                depth = depth - 1;
            },
            _ => {},
        }
        k = k + 1;
    }
    None
}

/// Whether the identifier `s` reads as `w`.
pub fn text_is(s: &String, w: &str) -> (r: bool)
    ensures
        r == (s@ == w@),
{
    let n = s.as_str().unicode_len();
    if n != w.unicode_len() {
        return false;
    }
    let mut i: usize = 0;
    while i < n
        invariant
            n == s@.len(),
            n == w@.len(),
            i <= n,
            forall|j: int| 0 <= j < i ==> s@[j] == w@[j],
        decreases n - i,
    {
        if s.as_str().get_char(i) != w.get_char(i) {
            return false;
        }
        i = i + 1;
    }
    assert(s@ =~= w@);
    true
}

/// A verbatim copy of a token.
pub fn copy_tok(t: &Tok) -> (r: Tok)
    ensures
        r == *t,
{
    match t {
        Tok::Ident(s) => Tok::Ident(s.clone()),
        Tok::Punct(c, j) => Tok::Punct(*c, *j),
        Tok::Lit(s) => Tok::Lit(s.clone()),
        Tok::Open(d) => Tok::Open(*d),
        Tok::Close(d) => Tok::Close(*d),
    }
}

} // verus!
