use vstd::prelude::*;

verus! {

/// Reserved words of the language; a word spelled like one of these is never an identifier.
#[derive(Clone, Copy, Debug, PartialEq, Eq, Structural)]
pub enum Keyword {
    Int,
    Void,
    Return,
}

/// Punctuators and operators.
#[derive(Clone, Copy, Debug, PartialEq, Eq, Structural)]
pub enum Punct {
    LParen,
    RParen,
    LBrace,
    RBrace,
    Semicolon,
    Tilde,
    Minus,
    Decrement,
    Bang,
    NotEqual,
    Plus,
    Star,
    Slash,
    Percent,
    Less,
    LessEqual,
    Greater,
    GreaterEqual,
    EqualEqual,
    AndAnd,
    OrOr,
}

#[derive(Clone, Copy, Debug, PartialEq, Eq, Structural)]
pub enum TokenKind {
    Identifier,
    IntLiteral,
    Keyword(Keyword),
    Punct(Punct),
    Eof,
}

/// A token with the text it was read from and the line and column (both from 1)
/// of its first byte.
#[derive(Clone, Debug, PartialEq, Eq)]
pub struct Token {
    pub kind: TokenKind,
    pub lexeme: Vec<u8>,
    pub line: usize,
    pub column: usize,
}

/// What a token is, mathematically.
pub struct Lexeme {
    pub kind: TokenKind,
    pub text: Seq<u8>,
    pub line: int,
    pub column: int,
}

impl View for Token {
    type V = Lexeme;

    open spec fn view(&self) -> Lexeme {
        Lexeme { kind: self.kind, text: self.lexeme@, line: self.line as int, column: self.column as int }
    }
}

pub open spec fn lexemes_of(toks: Seq<Token>) -> Seq<Lexeme> {
    toks.map_values(|t: Token| t@)
}

pub proof fn lemma_lexemes_of(toks: Seq<Token>)
    ensures
        lexemes_of(toks).len() == toks.len(),
        forall|i: int| 0 <= i < toks.len() ==> #[trigger] lexemes_of(toks)[i] == toks[i]@,
{
}

/// Every integer-literal token holds decimal digits only.
pub open spec fn literals_are_digits(t: Seq<Lexeme>) -> bool {
    forall|i: int, j: int|
        0 <= i < t.len() && t[i].kind == TokenKind::IntLiteral && 0 <= j < t[i].text.len()
            ==> 48 <= #[trigger] t[i].text[j] <= 57
}

pub open spec fn kinds_of(ls: Seq<Lexeme>) -> Seq<TokenKind> {
    ls.map_values(|l: Lexeme| l.kind)
}

} // verus!
