use vstd::prelude::*;

use crate::ast::{BinaryOp, Exp, FunctionDef, Program, Statement, UnaryOp};
use crate::token::{Keyword, Lexeme, Punct, Token, TokenKind, lemma_lexemes_of, lexemes_of, literals_are_digits};

verus! {

/// What the parser was looking for when it failed.
#[derive(Clone, Copy, Debug, PartialEq, Eq, Structural)]
pub enum Expected {
    Token(TokenKind),
    Expression,
}

#[derive(Clone, Copy, Debug, PartialEq, Eq, Structural)]
pub enum ParseError {
    /// A token other than the one the grammar asks for, at its line and column.
    UnexpectedToken { expected: Expected, found: TokenKind, line: usize, column: usize },
    /// The input ended where the grammar asks for more.
    UnexpectedEof,
}

/// The kind of the token at `pos`; past the end the stream reads as end of file.
pub open spec fn kind_at(t: Seq<Lexeme>, pos: int) -> TokenKind {
    if 0 <= pos < t.len() {
        t[pos].kind
    } else {
        TokenKind::Eof
    }
}

pub open spec fn error_at(t: Seq<Lexeme>, pos: int, expected: Expected) -> ParseError {
    if kind_at(t, pos) == TokenKind::Eof {
        ParseError::UnexpectedEof
    } else {
        ParseError::UnexpectedToken {
            expected,
            found: t[pos].kind,
            line: t[pos].line as usize,
            column: t[pos].column as usize,
        }
    }
}

/// The first place from `pos` on where the tokens differ from `ks`.
pub open spec fn mismatch(t: Seq<Lexeme>, pos: int, ks: Seq<TokenKind>) -> Option<ParseError>
    decreases ks.len(),
{
    if ks.len() == 0 {
        None
    } else if kind_at(t, pos) != ks[0] {
        Some(error_at(t, pos, Expected::Token(ks[0])))
    } else {
        mismatch(t, pos + 1, ks.drop_first())
    }
}

/// The value of a string of decimal digits.
pub open spec fn digits_value(d: Seq<u8>) -> nat
    decreases d.len(),
{
    if d.len() == 0 {
        0
    } else {
        digits_value(d.drop_last()) * 10 + (d.last() - 48) as nat
    }
}

pub open spec fn saturate(v: nat) -> u64 {
    if v > u64::MAX {
        u64::MAX
    } else {
        v as u64
    }
}

pub open spec fn unary_of(k: TokenKind) -> Option<UnaryOp> {
    match k {
        TokenKind::Punct(Punct::Minus) => Some(UnaryOp::Negate),
        TokenKind::Punct(Punct::Tilde) => Some(UnaryOp::Complement),
        TokenKind::Punct(Punct::Bang) => Some(UnaryOp::Not),
        _ => None,
    }
}

pub open spec fn binary_of(k: TokenKind) -> Option<BinaryOp> {
    match k {
        TokenKind::Punct(Punct::Plus) => Some(BinaryOp::Add),
        TokenKind::Punct(Punct::Minus) => Some(BinaryOp::Subtract),
        TokenKind::Punct(Punct::Star) => Some(BinaryOp::Multiply),
        TokenKind::Punct(Punct::Slash) => Some(BinaryOp::Divide),
        TokenKind::Punct(Punct::Percent) => Some(BinaryOp::Remainder),
        TokenKind::Punct(Punct::Less) => Some(BinaryOp::Less),
        TokenKind::Punct(Punct::LessEqual) => Some(BinaryOp::LessEqual),
        TokenKind::Punct(Punct::Greater) => Some(BinaryOp::Greater),
        TokenKind::Punct(Punct::GreaterEqual) => Some(BinaryOp::GreaterEqual),
        TokenKind::Punct(Punct::EqualEqual) => Some(BinaryOp::Equal),
        TokenKind::Punct(Punct::NotEqual) => Some(BinaryOp::NotEqual),
        TokenKind::Punct(Punct::AndAnd) => Some(BinaryOp::And),
        TokenKind::Punct(Punct::OrOr) => Some(BinaryOp::Or),
        _ => None,
    }
}

/// Binding strength: multiplicative over additive over relational over equality
/// over `&&` over `||`.
pub open spec fn precedence(op: BinaryOp) -> u64 {
    match op {
        BinaryOp::Multiply | BinaryOp::Divide | BinaryOp::Remainder => 50,
        BinaryOp::Add | BinaryOp::Subtract => 45,
        BinaryOp::Less | BinaryOp::LessEqual | BinaryOp::Greater | BinaryOp::GreaterEqual => 35,
        BinaryOp::Equal | BinaryOp::NotEqual => 30,
        BinaryOp::And => 10,
        BinaryOp::Or => 5,
    }
}

/// factor := int-literal | unary-op factor | "(" exp ")"
pub open spec fn factor_at(t: Seq<Lexeme>, pos: int) -> Result<(Exp, int), ParseError>
    decreases t.len() - pos, 1int,
{
    let k = kind_at(t, pos);
    if k == TokenKind::IntLiteral {
        Ok((Exp::Constant(saturate(digits_value(t[pos].text))), pos + 1))
    } else if unary_of(k).is_some() {
        match factor_at(t, pos + 1) {
            Ok((e, p)) => Ok((Exp::Unary(unary_of(k).unwrap(), Box::new(e)), p)),
            Err(x) => Err(x),
        }
    } else if k == TokenKind::Punct(Punct::LParen) {
        match exp_at(t, pos + 1, 0) {
            Ok((e, p)) => if kind_at(t, p) == TokenKind::Punct(Punct::RParen) {
                Ok((e, p + 1))
            } else {
                Err(error_at(t, p, Expected::Token(TokenKind::Punct(Punct::RParen))))
            },
            Err(x) => Err(x),
        }
    } else {
        Err(error_at(t, pos, Expected::Expression))
    }
}

/// exp at least as tight as `min_prec`: a factor, then binary operators of that
/// strength or more, each grouping to the left.
pub open spec fn exp_at(t: Seq<Lexeme>, pos: int, min_prec: u64) -> Result<(Exp, int), ParseError>
    decreases t.len() - pos, 2int,
{
    match factor_at(t, pos) {
        Ok((left, p)) => if pos < p <= t.len() {
            exp_rest(t, left, p, min_prec)
        } else {
            Err(ParseError::UnexpectedEof)
        },
        Err(x) => Err(x),
    }
}

pub open spec fn exp_rest(t: Seq<Lexeme>, left: Exp, pos: int, min_prec: u64) -> Result<(Exp, int), ParseError>
    decreases t.len() - pos, 3int,
{
    let k = kind_at(t, pos);
    if binary_of(k).is_some() && precedence(binary_of(k).unwrap()) >= min_prec {
        let op = binary_of(k).unwrap();
        match exp_at(t, pos + 1, (precedence(op) + 1) as u64) {
            Ok((right, p)) => if pos + 1 < p <= t.len() {
                exp_rest(t, Exp::Binary(op, Box::new(left), Box::new(right)), p, min_prec)
            } else {
                Err(ParseError::UnexpectedEof)
            },
            Err(x) => Err(x),
        }
    } else {
        Ok((left, pos))
    }
}

pub open spec fn header() -> Seq<TokenKind> {
    seq![
        TokenKind::Keyword(Keyword::Int),
        TokenKind::Identifier,
        TokenKind::Punct(Punct::LParen),
        TokenKind::Keyword(Keyword::Void),
        TokenKind::Punct(Punct::RParen),
        TokenKind::Punct(Punct::LBrace),
        TokenKind::Keyword(Keyword::Return),
    ]
}

pub open spec fn trailer() -> Seq<TokenKind> {
    seq![TokenKind::Punct(Punct::Semicolon), TokenKind::Punct(Punct::RBrace), TokenKind::Eof]
}

/// program := "int" identifier "(" "void" ")" "{" "return" exp ";" "}" end-of-file
///
/// On success: the function's name and the returned expression.
pub open spec fn program_of(t: Seq<Lexeme>) -> Result<(Seq<u8>, Exp), ParseError> {
    match mismatch(t, 0, header()) {
        Some(x) => Err(x),
        None => match exp_at(t, 7, 0) {
            Err(x) => Err(x),
            Ok((e, p)) => match mismatch(t, p, trailer()) {
                Some(x) => Err(x),
                None => Ok((t[1].text, e)),
            },
        },
    }
}

/// `parse` returns what `program_of` describes.
pub open spec fn parse_matches(r: Result<Program, ParseError>, spec: Result<(Seq<u8>, Exp), ParseError>) -> bool {
    match (r, spec) {
        (Ok(p), Ok((name, e))) => p.function.name@ == name && p.function.body == Statement::Return(e),
        (Err(x), Err(y)) => x == y,
        _ => false,
    }
}

fn kind_at_index(toks: &Vec<Token>, pos: usize) -> (k: TokenKind)
    ensures
        k == kind_at(lexemes_of(toks@), pos as int),
{
    proof { lemma_lexemes_of(toks@); }
    if pos < toks.len() {
        toks[pos].kind
    } else {
        TokenKind::Eof
    }
}

fn error_at_index(toks: &Vec<Token>, pos: usize, expected: Expected) -> (r: ParseError)
    ensures
        r == error_at(lexemes_of(toks@), pos as int, expected),
{
    proof { lemma_lexemes_of(toks@); }
    let k = kind_at_index(toks, pos);
    if k == TokenKind::Eof {
        ParseError::UnexpectedEof
    } else {
        ParseError::UnexpectedToken { expected, found: k, line: toks[pos].line, column: toks[pos].column }
    }
}

fn check_kinds(toks: &Vec<Token>, pos: usize, ks: &Vec<TokenKind>) -> (r: Option<ParseError>)
    ensures
        r == mismatch(lexemes_of(toks@), pos as int, ks@),
{
    let ghost t = lexemes_of(toks@);
    proof { lemma_lexemes_of(toks@); }
    let mut j: usize = 0;
    let mut q: usize = pos;
    assert(ks@.skip(0) =~= ks@);
    while j < ks.len()
        invariant
            0 <= j <= ks@.len(),
            t == lexemes_of(toks@),
            t.len() == toks@.len(),
            kind_at(t, q as int) == kind_at(t, pos + j),
            q >= toks@.len() ==> pos + j >= toks@.len(),
            q < toks@.len() ==> q == pos + j,
            mismatch(t, pos as int, ks@) == mismatch(t, pos + j, ks@.skip(j as int)),
        decreases ks@.len() - j,
    {
        let k = kind_at_index(toks, q);
        assert(ks@.skip(j as int).drop_first() =~= ks@.skip(j + 1));
        assert(ks@.skip(j as int)[0] == ks@[j as int]);
        if k != ks[j] {
            let e = error_at_index(toks, q, Expected::Token(ks[j]));
            assert(error_at(t, q as int, Expected::Token(ks[j as int])) == error_at(t, pos + j, Expected::Token(ks[j as int])));
            return Some(e);
        }
        if q < toks.len() {
            q = q + 1;
        }
        j = j + 1;
    }
    None
}

fn literal_value(d: &Vec<u8>) -> (v: u64)
    requires
        forall|i: int| 0 <= i < d@.len() ==> 48 <= #[trigger] d@[i] <= 57,
    ensures
        v == saturate(digits_value(d@)),
{
    let mut v: u64 = 0;
    let mut i: usize = 0;
    while i < d.len()
        invariant
            0 <= i <= d@.len(),
            forall|i: int| 0 <= i < d@.len() ==> 48 <= #[trigger] d@[i] <= 57,
            v == saturate(digits_value(d@.subrange(0, i as int))),
        decreases d@.len() - i,
    {
        let digit = (d[i] - 48) as u64;
        let ghost prev = digits_value(d@.subrange(0, i as int));
        assert(d@.subrange(0, i + 1).drop_last() =~= d@.subrange(0, i as int));
        assert(digits_value(d@.subrange(0, i + 1)) == prev * 10 + digit);
        if v == u64::MAX || v > (u64::MAX - digit) / 10 {
            assert(prev * 10 + digit > u64::MAX) by (nonlinear_arith)
                requires
                    v == u64::MAX ==> prev >= u64::MAX,
                    v != u64::MAX ==> v == prev && v > (u64::MAX - digit) / 10,
                    digit <= 9,
            ;
            v = u64::MAX;
        } else {
            assert(v * 10 + digit <= u64::MAX) by (nonlinear_arith)
                requires
                    v <= (u64::MAX - digit) / 10,
                    digit <= 9,
            ;
            v = v * 10 + digit;
        }
        i = i + 1;
    }
    assert(d@.subrange(0, d@.len() as int) =~= d@);
    v
}

fn unary_op_of(k: TokenKind) -> (r: Option<UnaryOp>)
    ensures
        r == unary_of(k),
{
    match k {
        TokenKind::Punct(Punct::Minus) => Some(UnaryOp::Negate),
        TokenKind::Punct(Punct::Tilde) => Some(UnaryOp::Complement),
        TokenKind::Punct(Punct::Bang) => Some(UnaryOp::Not),
        _ => None,
    }
}

fn binary_op_of(k: TokenKind) -> (r: Option<BinaryOp>)
    ensures
        r == binary_of(k),
{
    match k {
        TokenKind::Punct(Punct::Plus) => Some(BinaryOp::Add),
        TokenKind::Punct(Punct::Minus) => Some(BinaryOp::Subtract),
        TokenKind::Punct(Punct::Star) => Some(BinaryOp::Multiply),
        TokenKind::Punct(Punct::Slash) => Some(BinaryOp::Divide),
        TokenKind::Punct(Punct::Percent) => Some(BinaryOp::Remainder),
        TokenKind::Punct(Punct::Less) => Some(BinaryOp::Less),
        TokenKind::Punct(Punct::LessEqual) => Some(BinaryOp::LessEqual),
        TokenKind::Punct(Punct::Greater) => Some(BinaryOp::Greater),
        TokenKind::Punct(Punct::GreaterEqual) => Some(BinaryOp::GreaterEqual),
        TokenKind::Punct(Punct::EqualEqual) => Some(BinaryOp::Equal),
        TokenKind::Punct(Punct::NotEqual) => Some(BinaryOp::NotEqual),
        TokenKind::Punct(Punct::AndAnd) => Some(BinaryOp::And),
        TokenKind::Punct(Punct::OrOr) => Some(BinaryOp::Or),
        _ => None,
    }
}

pub fn precedence_of(op: BinaryOp) -> (r: u64)
    ensures
        r == precedence(op),
{
    match op {
        BinaryOp::Multiply | BinaryOp::Divide | BinaryOp::Remainder => 50,
        BinaryOp::Add | BinaryOp::Subtract => 45,
        BinaryOp::Less | BinaryOp::LessEqual | BinaryOp::Greater | BinaryOp::GreaterEqual => 35,
        BinaryOp::Equal | BinaryOp::NotEqual => 30,
        BinaryOp::And => 10,
        BinaryOp::Or => 5,
    }
}

pub open spec fn spec_result_is(r: Result<(Exp, usize), ParseError>, s: Result<(Exp, int), ParseError>, pos: int, len: int) -> bool {
    match r {
        Ok((e, p)) => s == Ok::<(Exp, int), ParseError>((e, p as int)) && pos < p <= len,
        Err(x) => s == Err::<(Exp, int), ParseError>(x),
    }
}

fn parse_factor(toks: &Vec<Token>, pos: usize) -> (r: Result<(Exp, usize), ParseError>)
    requires
        literals_are_digits(lexemes_of(toks@)),
    ensures
        spec_result_is(r, factor_at(lexemes_of(toks@), pos as int), pos as int, toks@.len() as int),
    decreases toks@.len() - pos, 1int,
{
    proof { lemma_lexemes_of(toks@); }
    // the length of a vector fits in usize, so `pos + 1` below cannot overflow
    let _len = toks.len();
    let k = kind_at_index(toks, pos);
    if k == TokenKind::IntLiteral {
        let v = literal_value(&toks[pos].lexeme);
        Ok((Exp::Constant(v), pos + 1))
    } else if let Some(op) = unary_op_of(k) {
        match parse_factor(toks, pos + 1) {
            Ok((e, p)) => Ok((Exp::Unary(op, Box::new(e)), p)),
            Err(x) => Err(x),
        }
    } else if k == TokenKind::Punct(Punct::LParen) {
        match parse_exp(toks, pos + 1, 0) {
            Ok((e, p)) => {
                if kind_at_index(toks, p) == TokenKind::Punct(Punct::RParen) {
                    Ok((e, p + 1))
                } else {
                    Err(error_at_index(toks, p, Expected::Token(TokenKind::Punct(Punct::RParen))))
                }
            },
            Err(x) => Err(x),
        }
    } else {
        Err(error_at_index(toks, pos, Expected::Expression))
    }
}

fn parse_exp(toks: &Vec<Token>, pos: usize, min_prec: u64) -> (r: Result<(Exp, usize), ParseError>)
    requires
        literals_are_digits(lexemes_of(toks@)),
    ensures
        spec_result_is(r, exp_at(lexemes_of(toks@), pos as int, min_prec), pos as int, toks@.len() as int),
    decreases toks@.len() - pos, 2int,
{
    proof { lemma_lexemes_of(toks@); }
    match parse_factor(toks, pos) {
        Ok((left, p)) => parse_exp_rest(toks, left, p, min_prec),
        Err(x) => Err(x),
    }
}

fn parse_exp_rest(toks: &Vec<Token>, left: Exp, pos: usize, min_prec: u64) -> (r: Result<(Exp, usize), ParseError>)
    requires
        literals_are_digits(lexemes_of(toks@)),
        pos <= toks@.len(),
    ensures
        match r {
            Ok((e, p)) => exp_rest(lexemes_of(toks@), left, pos as int, min_prec) == Ok::<(Exp, int), ParseError>((e, p as int))
                && pos <= p <= toks@.len(),
            Err(x) => exp_rest(lexemes_of(toks@), left, pos as int, min_prec) == Err::<(Exp, int), ParseError>(x),
        },
    decreases toks@.len() - pos, 3int,
{
    proof { lemma_lexemes_of(toks@); }
    // the length of a vector fits in usize, so `pos + 1` below cannot overflow
    let _len = toks.len();
    let k = kind_at_index(toks, pos);
    match binary_op_of(k) {
        Some(op) => {
            let prec = precedence_of(op);
            if prec >= min_prec {
                match parse_exp(toks, pos + 1, prec + 1) {
                    Ok((right, p)) => parse_exp_rest(toks, Exp::Binary(op, Box::new(left), Box::new(right)), p, min_prec),
                    Err(x) => Err(x),
                }
            } else {
                Ok((left, pos))
            }
        },
        None => Ok((left, pos)),
    }
}

/// Builds the tree of a token stream, or reports the first place where it leaves
/// the grammar.
pub fn parse(toks: &Vec<Token>) -> (r: Result<Program, ParseError>)
    requires
        literals_are_digits(lexemes_of(toks@)),
    ensures
        parse_matches(r, program_of(lexemes_of(toks@))),
{
    proof { lemma_lexemes_of(toks@); }
    let head = vec![
        TokenKind::Keyword(Keyword::Int),
        TokenKind::Identifier,
        TokenKind::Punct(Punct::LParen),
        TokenKind::Keyword(Keyword::Void),
        TokenKind::Punct(Punct::RParen),
        TokenKind::Punct(Punct::LBrace),
        TokenKind::Keyword(Keyword::Return),
    ];
    assert(head@ =~= header());
    if let Some(x) = check_kinds(toks, 0, &head) {
        return Err(x);
    }
    proof {
        reveal_with_fuel(mismatch, 8);
    }
    match parse_exp(toks, 7, 0) {
        Err(x) => Err(x),
        Ok((e, p)) => {
            let tail = vec![TokenKind::Punct(Punct::Semicolon), TokenKind::Punct(Punct::RBrace), TokenKind::Eof];
            assert(tail@ =~= trailer());
            match check_kinds(toks, p, &tail) {
                Some(x) => Err(x),
                None => {
                    let name = toks[1].lexeme.clone();
                    Ok(Program { function: FunctionDef { name, body: Statement::Return(e) } })
                },
            }
        },
    }
}

} // verus!
