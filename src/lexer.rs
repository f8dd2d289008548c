use vstd::prelude::*;

use crate::token::{Keyword, Lexeme, Punct, Token, TokenKind, kinds_of, lexemes_of, literals_are_digits};

verus! {

#[derive(Clone, Copy, Debug, PartialEq, Eq, Structural)]
pub enum LexErrorKind {
    UnrecognizedCharacter,
    UnterminatedLiteral,
}

/// A lexical error at the given line and column (both from 1).
#[derive(Clone, Copy, Debug, PartialEq, Eq, Structural)]
pub struct LexError {
    pub kind: LexErrorKind,
    pub line: usize,
    pub column: usize,
}

pub open spec fn is_space(b: u8) -> bool {
    b == 32 || (9 <= b && b <= 13)
}

pub open spec fn is_digit(b: u8) -> bool {
    48 <= b && b <= 57
}

pub open spec fn is_ident_start(b: u8) -> bool {
    (65 <= b && b <= 90) || (97 <= b && b <= 122) || b == 95
}

pub open spec fn is_ident_char(b: u8) -> bool {
    is_ident_start(b) || is_digit(b)
}

/// End of the longest run, starting at `i`, of digits (`digits`) or of identifier bytes.
pub open spec fn run_end(s: Seq<u8>, i: int, digits: bool) -> int
    decreases s.len() - i,
{
    if 0 <= i < s.len() && (if digits { is_digit(s[i]) } else { is_ident_char(s[i]) }) {
        run_end(s, i + 1, digits)
    } else {
        i
    }
}

/// The reserved-word table: "int", "void", "return".
pub open spec fn keyword_of(w: Seq<u8>) -> Option<Keyword> {
    if w == seq![105u8, 110, 116] {
        Some(Keyword::Int)
    } else if w == seq![118u8, 111, 105, 100] {
        Some(Keyword::Void)
    } else if w == seq![114u8, 101, 116, 117, 114, 110] {
        Some(Keyword::Return)
    } else {
        None
    }
}

/// The two-byte punctuators: "--", "!=", "<=", ">=", "==", "&&", "||".
pub open spec fn punct2(a: u8, b: u8) -> Option<Punct> {
    if a == 45 && b == 45 {
        Some(Punct::Decrement)
    } else if a == 33 && b == 61 {
        Some(Punct::NotEqual)
    } else if a == 60 && b == 61 {
        Some(Punct::LessEqual)
    } else if a == 62 && b == 61 {
        Some(Punct::GreaterEqual)
    } else if a == 61 && b == 61 {
        Some(Punct::EqualEqual)
    } else if a == 38 && b == 38 {
        Some(Punct::AndAnd)
    } else if a == 124 && b == 124 {
        Some(Punct::OrOr)
    } else {
        None
    }
}

/// The one-byte punctuators: ( ) { } ; ~ - ! + * / % < >.
pub open spec fn punct1(a: u8) -> Option<Punct> {
    if a == 40 {
        Some(Punct::LParen)
    } else if a == 41 {
        Some(Punct::RParen)
    } else if a == 123 {
        Some(Punct::LBrace)
    } else if a == 125 {
        Some(Punct::RBrace)
    } else if a == 59 {
        Some(Punct::Semicolon)
    } else if a == 126 {
        Some(Punct::Tilde)
    } else if a == 45 {
        Some(Punct::Minus)
    } else if a == 33 {
        Some(Punct::Bang)
    } else if a == 43 {
        Some(Punct::Plus)
    } else if a == 42 {
        Some(Punct::Star)
    } else if a == 47 {
        Some(Punct::Slash)
    } else if a == 37 {
        Some(Punct::Percent)
    } else if a == 60 {
        Some(Punct::Less)
    } else if a == 62 {
        Some(Punct::Greater)
    } else {
        None
    }
}

/// The token that starts at `i` (a byte that is not white space), by maximal munch:
/// its kind and where it ends.
pub open spec fn scan_at(s: Seq<u8>, i: int) -> Result<(TokenKind, int), LexErrorKind> {
    if is_ident_start(s[i]) {
        let e = run_end(s, i, false);
        match keyword_of(s.subrange(i, e)) {
            Some(k) => Ok((TokenKind::Keyword(k), e)),
            None => Ok((TokenKind::Identifier, e)),
        }
    } else if is_digit(s[i]) {
        let e = run_end(s, i, true);
        if e < s.len() && is_ident_char(s[e]) {
            Err(LexErrorKind::UnterminatedLiteral)
        } else {
            Ok((TokenKind::IntLiteral, e))
        }
    } else if i + 1 < s.len() && punct2(s[i], s[i + 1]).is_some() {
        Ok((TokenKind::Punct(punct2(s[i], s[i + 1]).unwrap()), i + 2))
    } else {
        match punct1(s[i]) {
            Some(p) => Ok((TokenKind::Punct(p), i + 1)),
            None => Err(LexErrorKind::UnrecognizedCharacter),
        }
    }
}

/// The tokens of `s` from byte `i` on, where byte `i` stands at `line` and `col`:
/// white space is skipped, every other byte starts the longest token it can,
/// and the stream ends with one end-of-file token; or the first error.
pub open spec fn lex_from(s: Seq<u8>, i: int, line: int, col: int) -> Result<Seq<Lexeme>, (LexErrorKind, int, int)>
    decreases s.len() - i,
{
    if i < 0 || i >= s.len() {
        Ok(seq![Lexeme { kind: TokenKind::Eof, text: Seq::empty(), line, column: col }])
    } else if is_space(s[i]) {
        if s[i] == 10 {
            lex_from(s, i + 1, line + 1, 1)
        } else {
            lex_from(s, i + 1, line, col + 1)
        }
    } else {
        match scan_at(s, i) {
            Err(k) => Err((k, line, col)),
            Ok((kind, e)) => if i < e <= s.len() {
                let tok = Lexeme { kind, text: s.subrange(i, e), line, column: col };
                prepend(seq![tok], lex_from(s, e, line, col + (e - i)))
            } else {
                Err((LexErrorKind::UnrecognizedCharacter, line, col))
            },
        }
    }
}

pub open spec fn prepend(p: Seq<Lexeme>, r: Result<Seq<Lexeme>, (LexErrorKind, int, int)>) -> Result<Seq<Lexeme>, (LexErrorKind, int, int)> {
    match r {
        Ok(rest) => Ok(p + rest),
        Err(e) => Err(e),
    }
}

/// The tokens of a whole source text.
pub open spec fn lex(s: Seq<u8>) -> Result<Seq<Lexeme>, (LexErrorKind, int, int)> {
    lex_from(s, 0, 1, 1)
}

/// The result of `tokenize` as it is specified.
pub open spec fn tokenize_matches(r: Result<Vec<Token>, LexError>, spec: Result<Seq<Lexeme>, (LexErrorKind, int, int)>) -> bool {
    match (r, spec) {
        (Ok(v), Ok(ls)) => lexemes_of(v@) == ls,
        (Err(e), Err((k, l, c))) => e.kind == k && e.line == l && e.column == c,
        _ => false,
    }
}

proof fn lemma_run_end_bounds(s: Seq<u8>, i: int, digits: bool)
    requires
        0 <= i <= s.len(),
    ensures
        i <= run_end(s, i, digits) <= s.len(),
        forall|j: int| i <= j < run_end(s, i, digits) ==> (if digits { is_digit(s[j]) } else { is_ident_char(s[j]) }),
    decreases s.len() - i,
{
    if i < s.len() && (if digits { is_digit(s[i]) } else { is_ident_char(s[i]) }) {
        lemma_run_end_bounds(s, i + 1, digits);
    }
}

/// Every integer literal that lexing yields is a run of decimal digits.
pub proof fn lemma_lex_literals_are_digits(s: Seq<u8>, i: int, line: int, col: int)
    requires
        0 <= i,
    ensures
        lex_from(s, i, line, col) is Ok ==> literals_are_digits(lex_from(s, i, line, col)->Ok_0),
    decreases s.len() - i,
{
    if i >= s.len() {
    } else if is_space(s[i]) {
        if s[i] == 10 {
            lemma_lex_literals_are_digits(s, i + 1, line + 1, 1);
        } else {
            lemma_lex_literals_are_digits(s, i + 1, line, col + 1);
        }
    } else {
        match scan_at(s, i) {
            Err(_) => {},
            Ok((kind, e)) => if i < e <= s.len() {
                let tok = Lexeme { kind, text: s.subrange(i, e), line, column: col };
                lemma_lex_literals_are_digits(s, e, line, col + (e - i));
                lemma_run_end_bounds(s, i, true);
                match lex_from(s, e, line, col + (e - i)) {
                    Ok(rest) => {
                        let all = seq![tok] + rest;
                        assert forall|a: int, b: int|
                            0 <= a < all.len() && all[a].kind == TokenKind::IntLiteral && 0 <= b < all[a].text.len()
                            implies 48 <= #[trigger] all[a].text[b] <= 57 by {
                            if a > 0 {
                                assert(all[a] == rest[a - 1]);
                            } else {
                                assert(s[i + b] == all[a].text[b]);
                            }
                        }
                    },
                    Err(_) => {},
                }
            },
        }
    }
}

/// The texts of a token stream, each followed by one space.
pub open spec fn spaced(ls: Seq<Lexeme>) -> Seq<u8>
    decreases ls.len(),
{
    if ls.len() == 0 {
        Seq::empty()
    } else {
        ls[0].text + seq![32u8] + spaced(ls.drop_first())
    }
}

proof fn lemma_run_end_shift(p: Seq<u8>, r: Seq<u8>, i: int, digits: bool)
    requires
        0 <= i,
    ensures
        run_end(p + r, p.len() + i, digits) == p.len() + run_end(r, i, digits),
    decreases r.len() - i,
{
    if i < r.len() {
        assert((p + r)[p.len() + i] == r[i]);
        lemma_run_end_shift(p, r, i + 1, digits);
    }
}

proof fn lemma_scan_shift(p: Seq<u8>, r: Seq<u8>, i: int)
    requires
        0 <= i < r.len(),
    ensures
        match scan_at(r, i) {
            Ok((k, e)) => scan_at(p + r, p.len() + i) == Ok::<(TokenKind, int), LexErrorKind>((k, p.len() + e)),
            Err(x) => scan_at(p + r, p.len() + i) == Err::<(TokenKind, int), LexErrorKind>(x),
        },
{
    let s = p + r;
    let j = p.len() + i;
    assert(s[j] == r[i]);
    lemma_run_end_shift(p, r, i, false);
    lemma_run_end_shift(p, r, i, true);
    lemma_run_end_bounds(r, i, false);
    lemma_run_end_bounds(r, i, true);
    let ew = run_end(r, i, false);
    assert(s.subrange(j, p.len() + ew) =~= r.subrange(i, ew));
    let ed = run_end(r, i, true);
    if ed < r.len() {
        assert(s[p.len() + ed] == r[ed]);
    }
    if i + 1 < r.len() {
        assert(s[j + 1] == r[i + 1]);
    }
}

/// Lexing looks only forward: what precedes position `i` does not change what is read from it.
proof fn lemma_lex_shift(p: Seq<u8>, r: Seq<u8>, i: int, line: int, col: int)
    requires
        0 <= i,
    ensures
        lex_from(p + r, p.len() + i, line, col) == lex_from(r, i, line, col),
    decreases r.len() - i,
{
    let s = p + r;
    if i < r.len() {
        assert(s[p.len() + i] == r[i]);
        if is_space(r[i]) {
            if r[i] == 10 {
                lemma_lex_shift(p, r, i + 1, line + 1, 1);
            } else {
                lemma_lex_shift(p, r, i + 1, line, col + 1);
            }
        } else {
            lemma_scan_shift(p, r, i);
            match scan_at(r, i) {
                Err(_) => {},
                Ok((k, e)) => {
                    if i < e <= r.len() {
                        assert(s.subrange(p.len() + i, p.len() + e) =~= r.subrange(i, e));
                        lemma_lex_shift(p, r, e, line, col + (e - i));
                    }
                },
            }
        }
    }
}

proof fn lemma_run_end_stops(u: Seq<u8>, n: int, j: int, digits: bool)
    requires
        0 <= j <= n < u.len(),
        u[n] == 32,
        forall|m: int| j <= m < n ==> (if digits { is_digit(u[m]) } else { is_ident_char(u[m]) }),
    ensures
        run_end(u, j, digits) == n,
    decreases n - j,
{
    if j < n {
        lemma_run_end_stops(u, n, j + 1, digits);
    }
}

/// A token's text followed by a space is read back as one token of the same kind.
proof fn lemma_rescan(s: Seq<u8>, i: int, r: Seq<u8>)
    requires
        0 <= i < s.len(),
        scan_at(s, i) is Ok,
        i < scan_at(s, i)->Ok_0.1 <= s.len(),
    ensures
        ({
            let (k, e) = scan_at(s, i)->Ok_0;
            let w = s.subrange(i, e);
            scan_at(w + seq![32u8] + r, 0) == Ok::<(TokenKind, int), LexErrorKind>((k, w.len() as int))
        }),
{
    let (k, e) = scan_at(s, i)->Ok_0;
    let w = s.subrange(i, e);
    let u = w + seq![32u8] + r;
    let n = w.len() as int;
    assert(u[0] == s[i]);
    assert(u[n] == 32);
    assert forall|m: int| 0 <= m < n implies u[m] == s[i + m] by {}
    lemma_run_end_bounds(s, i, false);
    lemma_run_end_bounds(s, i, true);
    if is_ident_start(s[i]) {
        lemma_run_end_stops(u, n, 0, false);
        assert(u.subrange(0, n) =~= w);
    } else if is_digit(s[i]) {
        lemma_run_end_stops(u, n, 0, true);
    } else if i + 1 < s.len() && punct2(s[i], s[i + 1]).is_some() {
        assert(u[1] == s[i + 1]);
    } else {
        assert(u[1] == 32);
    }
}

proof fn lemma_relex(s: Seq<u8>, i: int, line: int, col: int, l2: int, c2: int)
    requires
        0 <= i,
        lex_from(s, i, line, col) is Ok,
    ensures
        lex_from(spaced(lex_from(s, i, line, col)->Ok_0), 0, l2, c2) is Ok,
        kinds_of(lex_from(spaced(lex_from(s, i, line, col)->Ok_0), 0, l2, c2)->Ok_0) == kinds_of(
            lex_from(s, i, line, col)->Ok_0,
        ),
    decreases s.len() - i,
{
    let ls = lex_from(s, i, line, col)->Ok_0;
    if i >= s.len() {
        let u = spaced(ls);
        assert(ls.drop_first() =~= Seq::<Lexeme>::empty());
        assert(spaced(ls.drop_first()) =~= Seq::<u8>::empty());
        assert(ls[0].text =~= Seq::<u8>::empty());
        assert(u =~= seq![32u8]);
        assert(lex_from(u, 0, l2, c2) == lex_from(u, 1, l2, c2 + 1));
        assert(kinds_of(ls) =~= kinds_of(lex_from(u, 0, l2, c2)->Ok_0));
    } else if is_space(s[i]) {
        if s[i] == 10 {
            lemma_relex(s, i + 1, line + 1, 1, l2, c2);
        } else {
            lemma_relex(s, i + 1, line, col + 1, l2, c2);
        }
    } else {
        let (k, e) = scan_at(s, i)->Ok_0;
        let w = s.subrange(i, e);
        let n = w.len() as int;
        let tok = Lexeme { kind: k, text: w, line, column: col };
        let rest = lex_from(s, e, line, col + (e - i))->Ok_0;
        assert(ls == seq![tok] + rest);
        assert(ls.drop_first() =~= rest);
        let sr = spaced(rest);
        let u = spaced(ls);
        assert(u == w + seq![32u8] + sr);
        lemma_rescan(s, i, sr);
        assert(u[n] == 32);
        lemma_lex_shift(w + seq![32u8], sr, 0, l2, c2 + n + 1);
        assert(w + seq![32u8] + sr == (w + seq![32u8]) + sr);
        assert(lex_from(u, n + 1, l2, c2 + n + 1) == lex_from(sr, 0, l2, c2 + n + 1));
        lemma_relex(s, e, line, col + (e - i), l2, c2 + n + 1);
        assert(lex_from(u, n, l2, c2 + n) == lex_from(u, n + 1, l2, c2 + n + 1));
        let rest2 = lex_from(sr, 0, l2, c2 + n + 1)->Ok_0;
        let tok2 = Lexeme { kind: k, text: u.subrange(0, n), line: l2, column: c2 };
        assert(lex_from(u, 0, l2, c2) == Ok::<Seq<Lexeme>, (LexErrorKind, int, int)>(seq![tok2] + rest2));
        assert(kinds_of(seq![tok2] + rest2) =~= seq![k] + kinds_of(rest2));
        assert(kinds_of(ls) =~= seq![k] + kinds_of(rest));
    }
}

/// Lexing the token texts again, each followed by a space, gives back the same
/// sequence of token kinds.
pub proof fn lemma_round_trip(s: Seq<u8>)
    requires
        lex(s) is Ok,
    ensures
        lex(spaced(lex(s)->Ok_0)) is Ok,
        kinds_of(lex(spaced(lex(s)->Ok_0))->Ok_0) == kinds_of(lex(s)->Ok_0),
{
    lemma_relex(s, 0, 1, 1, 1, 1);
}

fn scan_run(s: &Vec<u8>, i: usize, digits: bool) -> (e: usize)
    requires
        i <= s@.len(),
    ensures
        e == run_end(s@, i as int, digits),
        i <= e <= s@.len(),
{
    proof { lemma_run_end_bounds(s@, i as int, digits); }
    let mut j: usize = i;
    while j < s.len() && in_run(s[j], digits)
        invariant
            i <= j <= s@.len(),
            run_end(s@, j as int, digits) == run_end(s@, i as int, digits),
        decreases s@.len() - j,
    {
        j = j + 1;
    }
    j
}

fn in_run(b: u8, digits: bool) -> (r: bool)
    ensures
        r == (if digits { is_digit(b) } else { is_ident_char(b) }),
{
    if digits {
        is_digit_byte(b)
    } else {
        is_ident_char_byte(b)
    }
}

fn is_digit_byte(b: u8) -> (r: bool)
    ensures
        r == is_digit(b),
{
    48 <= b && b <= 57
}

fn is_ident_start_byte(b: u8) -> (r: bool)
    ensures
        r == is_ident_start(b),
{
    (65 <= b && b <= 90) || (97 <= b && b <= 122) || b == 95
}

fn is_ident_char_byte(b: u8) -> (r: bool)
    ensures
        r == is_ident_char(b),
{
    is_ident_start_byte(b) || is_digit_byte(b)
}

fn keyword_at(s: &Vec<u8>, i: usize, e: usize) -> (r: Option<Keyword>)
    requires
        i <= e <= s@.len(),
    ensures
        r == keyword_of(s@.subrange(i as int, e as int)),
{
    let ghost w = s@.subrange(i as int, e as int);
    let n = e - i;
    if n == 3 && s[i] == 105 && s[i + 1] == 110 && s[i + 2] == 116 {
        assert(w =~= seq![105u8, 110, 116]);
        Some(Keyword::Int)
    } else if n == 4 && s[i] == 118 && s[i + 1] == 111 && s[i + 2] == 105 && s[i + 3] == 100 {
        assert(w =~= seq![118u8, 111, 105, 100]);
        Some(Keyword::Void)
    } else if n == 6 && s[i] == 114 && s[i + 1] == 101 && s[i + 2] == 116 && s[i + 3] == 117
        && s[i + 4] == 114 && s[i + 5] == 110 {
        assert(w =~= seq![114u8, 101, 116, 117, 114, 110]);
        Some(Keyword::Return)
    } else {
        proof {
            assert(w.len() == n);
            if w == seq![105u8, 110, 116] {
                assert(w[0] == 105u8 && w[1] == 110u8 && w[2] == 116u8);
            }
            if w == seq![118u8, 111, 105, 100] {
                assert(w[0] == 118u8 && w[1] == 111u8 && w[2] == 105u8 && w[3] == 100u8);
            }
            if w == seq![114u8, 101, 116, 117, 114, 110] {
                assert(w[0] == 114u8 && w[1] == 101u8 && w[2] == 116u8 && w[3] == 117u8 && w[4] == 114u8
                    && w[5] == 110u8);
            }
        }
        None
    }
}

fn punct2_of(a: u8, b: u8) -> (r: Option<Punct>)
    ensures
        r == punct2(a, b),
{
    if a == 45 && b == 45 {
        Some(Punct::Decrement)
    } else if a == 33 && b == 61 {
        Some(Punct::NotEqual)
    } else if a == 60 && b == 61 {
        Some(Punct::LessEqual)
    } else if a == 62 && b == 61 {
        Some(Punct::GreaterEqual)
    } else if a == 61 && b == 61 {
        Some(Punct::EqualEqual)
    } else if a == 38 && b == 38 {
        Some(Punct::AndAnd)
    } else if a == 124 && b == 124 {
        Some(Punct::OrOr)
    } else {
        None
    }
}

fn punct1_of(a: u8) -> (r: Option<Punct>)
    ensures
        r == punct1(a),
{
    if a == 40 {
        Some(Punct::LParen)
    } else if a == 41 {
        Some(Punct::RParen)
    } else if a == 123 {
        Some(Punct::LBrace)
    } else if a == 125 {
        Some(Punct::RBrace)
    } else if a == 59 {
        Some(Punct::Semicolon)
    } else if a == 126 {
        Some(Punct::Tilde)
    } else if a == 45 {
        Some(Punct::Minus)
    } else if a == 33 {
        Some(Punct::Bang)
    } else if a == 43 {
        Some(Punct::Plus)
    } else if a == 42 {
        Some(Punct::Star)
    } else if a == 47 {
        Some(Punct::Slash)
    } else if a == 37 {
        Some(Punct::Percent)
    } else if a == 60 {
        Some(Punct::Less)
    } else if a == 62 {
        Some(Punct::Greater)
    } else {
        None
    }
}

/// Reads the token that starts at `i`.
fn scan_token(s: &Vec<u8>, i: usize) -> (r: Result<(TokenKind, usize), LexErrorKind>)
    requires
        i < s@.len(),
    ensures
        match (r, scan_at(s@, i as int)) {
            (Ok((k, e)), Ok((k2, e2))) => k == k2 && e == e2 && i < e <= s@.len(),
            (Err(x), Err(y)) => x == y,
            _ => false,
        },
{
    let b = s[i];
    if is_ident_start_byte(b) {
        let e = scan_run(s, i, false);
        proof {
            lemma_run_end_bounds(s@, i + 1, false);
            lemma_run_end_bounds(s@, i + 1, true);
        }
        match keyword_at(s, i, e) {
            Some(k) => Ok((TokenKind::Keyword(k), e)),
            None => Ok((TokenKind::Identifier, e)),
        }
    } else if is_digit_byte(b) {
        let e = scan_run(s, i, true);
        proof {
            lemma_run_end_bounds(s@, i + 1, false);
            lemma_run_end_bounds(s@, i + 1, true);
        }
        if e < s.len() && is_ident_char_byte(s[e]) {
            Err(LexErrorKind::UnterminatedLiteral)
        } else {
            Ok((TokenKind::IntLiteral, e))
        }
    } else {
        let two = if i < s.len() - 1 { punct2_of(b, s[i + 1]) } else { None };
        match two {
            Some(p) => Ok((TokenKind::Punct(p), i + 2)),
            None => match punct1_of(b) {
                Some(p) => Ok((TokenKind::Punct(p), i + 1)),
                None => Err(LexErrorKind::UnrecognizedCharacter),
            },
        }
    }
}

fn copy_range(s: &Vec<u8>, i: usize, e: usize) -> (r: Vec<u8>)
    requires
        i <= e <= s@.len(),
    ensures
        r@ == s@.subrange(i as int, e as int),
{
    let mut r: Vec<u8> = Vec::new();
    let mut j: usize = i;
    while j < e
        invariant
            i <= j <= e <= s@.len(),
            r@ == s@.subrange(i as int, j as int),
        decreases e - j,
    {
        r.push(s[j]);
        j = j + 1;
        assert(r@ =~= s@.subrange(i as int, j as int));
    }
    r
}

/// Splits preprocessed source text into tokens, ending with one end-of-file token,
/// or reports the first byte that starts no token.
pub fn tokenize(s: &Vec<u8>) -> (r: Result<Vec<Token>, LexError>)
    requires
        s@.len() < usize::MAX,
    ensures
        tokenize_matches(r, lex(s@)),
        r is Ok ==> literals_are_digits(lexemes_of(r->Ok_0@)),
{
    proof {
        lemma_lex_literals_are_digits(s@, 0, 1, 1);
    }
    let mut out: Vec<Token> = Vec::new();
    let mut i: usize = 0;
    let mut line: usize = 1;
    let mut col: usize = 1;
    while i < s.len()
        invariant
            i <= s@.len() < usize::MAX,
            1 <= line <= i + 1,
            1 <= col <= i + 1,
            lex(s@) == prepend(lexemes_of(out@), lex_from(s@, i as int, line as int, col as int)),
        decreases s@.len() - i,
    {
        let b = s[i];
        if b == 32 || (9 <= b && b <= 13) {
            if b == 10 {
                line = line + 1;
                col = 1;
            } else {
                col = col + 1;
            }
            i = i + 1;
        } else {
            match scan_token(s, i) {
                Err(kind) => {
                    return Err(LexError { kind, line, column: col });
                },
                Ok((kind, e)) => {
                    let lexeme = copy_range(s, i, e);
                    let tok = Token { kind, lexeme, line, column: col };
                    let ghost before = lexemes_of(out@);
                    out.push(tok);
                    proof {
                        assert(lexemes_of(out@) =~= before + seq![tok@]);
                        match lex_from(s@, e as int, line as int, (col + (e - i)) as int) {
                            Ok(rest) => {
                                assert(before + (seq![tok@] + rest) =~= (before + seq![tok@]) + rest);
                            },
                            Err(_) => {},
                        }
                    }
                    col = col + (e - i);
                    i = e;
                },
            }
        }
    }
    let eof = Token { kind: TokenKind::Eof, lexeme: Vec::new(), line, column: col };
    let ghost before = lexemes_of(out@);
    out.push(eof);
    proof {
        assert(lexemes_of(out@) =~= before + seq![eof@]);
        assert(eof@.text =~= Seq::<u8>::empty());
    }
    Ok(out)
}

} // verus!
