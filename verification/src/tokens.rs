//! The token model that the whole pipeline works on.
//!
//! Every token carries the source range it was read from, so that each
//! diagnostic can point at the exact token that caused it.

use vstd::prelude::*;

verus! {

/// A source-location range, measured in offsets of the surrounding input.
#[derive(Debug, Clone, Copy, PartialEq, Eq, Structural)]
pub struct Span {
    pub lo: usize,
    pub hi: usize,
}

/// The delimiter of a bracketed token group.
#[derive(Debug, Clone, Copy, PartialEq, Eq, Structural)]
pub enum Delimiter {
    Parenthesis,
    Bracket,
    Brace,
    Invisible,
}

/// One syntax token: an identifier, a punctuation character, a literal, or a
/// delimited group carrying its inner tokens.
#[derive(Debug, PartialEq, Eq)]
pub enum Token {
    Ident { span: Span, text: String },
    Punct { span: Span, ch: char },
    Literal { span: Span, text: String },
    Group { span: Span, delimiter: Delimiter, tokens: Vec<Token> },
}

impl DeepView for Token {
    type V = Token;

    open spec fn deep_view(&self) -> Token {
        *self
    }
}

/// A token sequence is its own deep view.
pub proof fn lemma_tokens_deep_view(v: Vec<Token>)
    ensures
        v.deep_view() =~= v@,
{
    assert(forall|i: int| 0 <= i < v@.len() ==> v.deep_view()[i] == v@[i]);
}

/// The source range a token covers.
pub open spec fn token_span(t: Token) -> Span {
    match t {
        Token::Ident { span, .. } => span,
        Token::Punct { span, .. } => span,
        Token::Literal { span, .. } => span,
        Token::Group { span, .. } => span,
    }
}

/// Whether a token is the comma punctuation.
pub open spec fn is_comma_token(t: Token) -> bool {
    match t {
        Token::Punct { ch, .. } => ch == ',',
        _ => false,
    }
}

/// Whether a token is the equals-sign punctuation.
pub open spec fn is_eq_token(t: Token) -> bool {
    match t {
        Token::Punct { ch, .. } => ch == '=',
        _ => false,
    }
}

impl Token {
    /// Builds an identifier token.
    pub fn ident(lo: usize, hi: usize, text: &str) -> (t: Token)
        ensures
            t matches Token::Ident { span, text: tx } && span == (Span { lo, hi }) && tx@
                == text@,
    {
        Token::Ident { span: Span { lo, hi }, text: String::from_str(text) }
    }

    /// Builds a punctuation token.
    pub fn punct(lo: usize, hi: usize, ch: char) -> (t: Token)
        ensures
            t == (Token::Punct { span: Span { lo, hi }, ch }),
    {
        Token::Punct { span: Span { lo, hi }, ch }
    }

    /// Builds a literal token from its textual form.
    pub fn literal(lo: usize, hi: usize, text: &str) -> (t: Token)
        ensures
            t matches Token::Literal { span, text: tx } && span == (Span { lo, hi }) && tx@
                == text@,
    {
        Token::Literal { span: Span { lo, hi }, text: String::from_str(text) }
    }

    /// Builds a delimited group token.
    pub fn group(lo: usize, hi: usize, delimiter: Delimiter, tokens: Vec<Token>) -> (t: Token)
        ensures
            t matches Token::Group { span, delimiter: d, tokens: tk } && span == (Span { lo, hi })
                && d == delimiter && tk == tokens,
    {
        Token::Group { span: Span { lo, hi }, delimiter, tokens }
    }
}

/// The source range of a token.
pub fn span_of(t: &Token) -> (s: Span)
    ensures
        s == token_span(*t),
{
    match t {
        Token::Ident { span, .. } => *span,
        Token::Punct { span, .. } => *span,
        Token::Literal { span, .. } => *span,
        Token::Group { span, .. } => *span,
    }
}

} // verus!
