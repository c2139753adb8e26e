use vstd::prelude::*;
use vstd::string::StrSliceExecFns;

verus! {

/// A region of source text, as byte offsets.
#[derive(Clone, Copy, Debug, PartialEq, Eq, Structural)]
pub struct Span {
    pub lo: u32,
    pub hi: u32,
}

/// The delimiter of a token group.
#[derive(Clone, Copy, Debug, PartialEq, Eq, Structural)]
pub enum Delimiter {
    Parenthesis,
    Brace,
    Bracket,
    Invisible,
}

/// What an atomic token is.
#[derive(Clone, Debug, PartialEq, Eq)]
pub enum TokenKind {
    /// An identifier, with its name.
    Ident(String),
    /// A punctuation character.
    Punct(char),
    /// A string literal of any encoding, with its source text.
    StrLiteral(String),
    /// Any other token.
    Other,
}

/// An atomic token and where it stands.
#[derive(Clone, Debug, PartialEq, Eq)]
pub struct Token {
    pub kind: TokenKind,
    pub span: Span,
}

/// A node of a token stream: an atomic token, or a delimited group with the
/// span of the whole delimited region and the nodes inside it.
#[derive(Debug, PartialEq, Eq)]
pub enum TokenTree {
    Token(Token),
    Delimited(Delimiter, Span, Vec<TokenTree>),
}

/// A macro call before expansion: the segments of its path and its argument
/// tokens.
#[derive(Debug, PartialEq, Eq)]
pub struct MacCall {
    pub path: Vec<String>,
    pub tokens: Vec<TokenTree>,
}

pub open spec fn is_ident_named(tt: TokenTree, name: Seq<char>) -> bool {
    match tt {
        TokenTree::Token(t) => match t.kind {
            TokenKind::Ident(s) => s@ == name,
            _ => false,
        },
        _ => false,
    }
}

pub open spec fn is_punct(tt: TokenTree, c: char) -> bool {
    match tt {
        TokenTree::Token(t) => t.kind == TokenKind::Punct(c),
        _ => false,
    }
}

pub open spec fn is_str_literal(tt: TokenTree) -> bool {
    match tt {
        TokenTree::Token(t) => t.kind is StrLiteral,
        _ => false,
    }
}

/// The span of a node; for a group, the whole delimited region.
pub open spec fn tree_span(tt: TokenTree) -> Span {
    match tt {
        TokenTree::Token(t) => t.span,
        TokenTree::Delimited(_, span, _) => span,
    }
}

/// Whether two strings hold the same characters.
pub fn text_is(s: &str, expected: &str) -> (r: bool)
    ensures
        r == (s@ == expected@),
{
    let n = s.unicode_len();
    if n != expected.unicode_len() {
        return false;
    }
    let mut i: usize = 0;
    while i < n
        invariant
            n == s@.len() == expected@.len(),
            0 <= i <= n,
            forall|j: int| 0 <= j < i ==> s@[j] == expected@[j],
        decreases n - i,
    {
        if s.get_char(i) != expected.get_char(i) {
            return false;
        }
        i = i + 1;
    }
    assert(s@ =~= expected@);
    true
}

impl TokenTree {
    /// Whether this node is the identifier `name`.
    pub fn is_ident(&self, name: &str) -> (r: bool)
        ensures
            r == is_ident_named(*self, name@),
    {
        match self {
            TokenTree::Token(t) => match &t.kind {
                TokenKind::Ident(s) => text_is(s.as_str(), name),
                _ => false,
            },
            _ => false,
        }
    }

    /// Whether this node is the punctuation character `c`.
    pub fn is_punct(&self, c: char) -> (r: bool)
        ensures
            r == is_punct(*self, c),
    {
        match self {
            TokenTree::Token(t) => match &t.kind {
                TokenKind::Punct(p) => *p == c,
                _ => false,
            },
            _ => false,
        }
    }

    /// Whether this node is a string literal.
    pub fn is_str_literal(&self) -> (r: bool)
        ensures
            r == is_str_literal(*self),
    {
        match self {
            TokenTree::Token(t) => match &t.kind {
                TokenKind::StrLiteral(_) => true,
                _ => false,
            },
            _ => false,
        }
    }

    /// The span of this node; for a group, the whole delimited region.
    pub fn span(&self) -> (r: Span)
        ensures
            r == tree_span(*self),
    {
        match self {
            TokenTree::Token(t) => t.span,
            TokenTree::Delimited(_, span, _) => *span,
        }
    }
}

} // verus!
