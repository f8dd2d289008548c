use mc::ast::{BinaryOp, Exp, Statement, UnaryOp};
use mc::codegen::{generate, CodegenError, Condition, Instruction};
use mc::emit::emit;
use mc::lexer::{tokenize, LexError, LexErrorKind};
use mc::parser::{parse, Expected, ParseError};
use mc::token::{Keyword, Punct, Token, TokenKind};

fn kinds(src: &str) -> Vec<TokenKind> {
    tokenize(&src.as_bytes().to_vec()).unwrap().iter().map(|t| t.kind).collect()
}

fn body(src: &str) -> Exp {
    let toks = tokenize(&src.as_bytes().to_vec()).unwrap();
    let p = parse(&toks).unwrap();
    match p.function.body {
        Statement::Return(e) => e,
    }
}

fn ret(e: &str) -> String {
    format!("int main(void) {{ return {}; }}", e)
}

fn c(v: u64) -> Box<Exp> {
    Box::new(Exp::Constant(v))
}

#[test]
fn return_two_tokens() {
    let toks = tokenize(&b"int main(void) { return 2; }".to_vec()).unwrap();
    let ks: Vec<TokenKind> = toks.iter().map(|t| t.kind).collect();
    assert_eq!(
        ks,
        vec![
            TokenKind::Keyword(Keyword::Int),
            TokenKind::Identifier,
            TokenKind::Punct(Punct::LParen),
            TokenKind::Keyword(Keyword::Void),
            TokenKind::Punct(Punct::RParen),
            TokenKind::Punct(Punct::LBrace),
            TokenKind::Keyword(Keyword::Return),
            TokenKind::IntLiteral,
            TokenKind::Punct(Punct::Semicolon),
            TokenKind::Punct(Punct::RBrace),
            TokenKind::Eof,
        ]
    );
    assert_eq!(toks[1].lexeme, b"main".to_vec());
    assert_eq!(toks[7].lexeme, b"2".to_vec());
    assert_eq!((toks[7].line, toks[7].column), (1, 25));
    assert_eq!(toks[10].lexeme, Vec::<u8>::new());
}

#[test]
fn return_two_tree() {
    let toks = tokenize(&b"int main(void) { return 2; }".to_vec()).unwrap();
    let p = parse(&toks).unwrap();
    assert_eq!(p.function.name, b"main".to_vec());
    assert_eq!(p.function.body, Statement::Return(Exp::Constant(2)));
}

#[test]
fn return_two_assembly() {
    let toks = tokenize(&b"int main(void) { return 2; }".to_vec()).unwrap();
    let unit = generate(&parse(&toks).unwrap()).unwrap();
    assert_eq!(unit.functions.len(), 1);
    assert_eq!(unit.functions[0].name, b"main".to_vec());
    assert_eq!(
        unit.functions[0].instructions,
        vec![
            Instruction::PushFrame,
            Instruction::SetFrame,
            Instruction::LoadConstant(2),
            Instruction::RestoreStack,
            Instruction::PopFrame,
            Instruction::Ret,
        ]
    );
    assert_eq!(
        emit(&unit),
        "\t.globl\tmain\nmain:\n\tpushq\t%rbp\n\tmovq\t%rsp, %rbp\n\tmovl\t$2, %eax\n\tmovq\t%rbp, %rsp\n\tpopq\t%rbp\n\tret\n\t.section\t.note.GNU-stack,\"\",@progbits\n"
    );
}

#[test]
fn unmatched_brace_is_unexpected_eof() {
    let toks = tokenize(&b"int main(void) { return 2;".to_vec()).unwrap();
    assert_eq!(parse(&toks), Err(ParseError::UnexpectedEof));
}

#[test]
fn unrecognized_character_position() {
    let r = tokenize(&b"int main(void) {\n  return @;\n}".to_vec());
    assert_eq!(r, Err(LexError { kind: LexErrorKind::UnrecognizedCharacter, line: 2, column: 10 }));
}

#[test]
fn single_ampersand_is_unrecognized() {
    let r = tokenize(&b"1 & 2".to_vec());
    assert_eq!(r, Err(LexError { kind: LexErrorKind::UnrecognizedCharacter, line: 1, column: 3 }));
}

#[test]
fn literal_running_into_letters() {
    let r = tokenize(&b"return 12ab;".to_vec());
    assert_eq!(r, Err(LexError { kind: LexErrorKind::UnterminatedLiteral, line: 1, column: 8 }));
}

#[test]
fn empty_source_is_one_eof() {
    let toks = tokenize(&Vec::new()).unwrap();
    assert_eq!(toks, vec![Token { kind: TokenKind::Eof, lexeme: Vec::new(), line: 1, column: 1 }]);
}

#[test]
fn maximal_munch() {
    assert_eq!(
        kinds("a--b<=c!=d"),
        vec![
            TokenKind::Identifier,
            TokenKind::Punct(Punct::Decrement),
            TokenKind::Identifier,
            TokenKind::Punct(Punct::LessEqual),
            TokenKind::Identifier,
            TokenKind::Punct(Punct::NotEqual),
            TokenKind::Identifier,
            TokenKind::Eof,
        ]
    );
    assert_eq!(kinds("- -"), vec![TokenKind::Punct(Punct::Minus), TokenKind::Punct(Punct::Minus), TokenKind::Eof]);
}

#[test]
fn keyword_beats_identifier() {
    assert_eq!(
        kinds("int integer return returns void _void"),
        vec![
            TokenKind::Keyword(Keyword::Int),
            TokenKind::Identifier,
            TokenKind::Keyword(Keyword::Return),
            TokenKind::Identifier,
            TokenKind::Keyword(Keyword::Void),
            TokenKind::Identifier,
            TokenKind::Eof,
        ]
    );
}

#[test]
fn relexing_spaced_lexemes_keeps_kinds() {
    let src = b"int main(void){return -(~3)*4<=5&&!0||1--2;}".to_vec();
    let toks = tokenize(&src).unwrap();
    let mut again: Vec<u8> = Vec::new();
    for t in &toks {
        again.extend_from_slice(&t.lexeme);
        again.push(b' ');
    }
    let toks2 = tokenize(&again).unwrap();
    let k1: Vec<TokenKind> = toks.iter().map(|t| t.kind).collect();
    let k2: Vec<TokenKind> = toks2.iter().map(|t| t.kind).collect();
    assert_eq!(k1, k2);
}

#[test]
fn multiplication_binds_tighter() {
    assert_eq!(
        body(&ret("1 + 2 * 3")),
        Exp::Binary(BinaryOp::Add, c(1), Box::new(Exp::Binary(BinaryOp::Multiply, c(2), c(3))))
    );
}

#[test]
fn subtraction_groups_left() {
    assert_eq!(
        body(&ret("1 - 2 - 3")),
        Exp::Binary(BinaryOp::Subtract, Box::new(Exp::Binary(BinaryOp::Subtract, c(1), c(2))), c(3))
    );
}

#[test]
fn logical_below_comparison() {
    assert_eq!(
        body(&ret("1 < 2 || 3 == 4 && 5")),
        Exp::Binary(
            BinaryOp::Or,
            Box::new(Exp::Binary(BinaryOp::Less, c(1), c(2))),
            Box::new(Exp::Binary(BinaryOp::And, Box::new(Exp::Binary(BinaryOp::Equal, c(3), c(4))), c(5)))
        )
    );
}

#[test]
fn unary_and_parentheses() {
    assert_eq!(
        body(&ret("-(~2 + 1)")),
        Exp::Unary(
            UnaryOp::Negate,
            Box::new(Exp::Binary(BinaryOp::Add, Box::new(Exp::Unary(UnaryOp::Complement, c(2))), c(1)))
        )
    );
    assert_eq!(body(&ret("!((7))")), Exp::Unary(UnaryOp::Not, c(7)));
}

#[test]
fn huge_literal_saturates() {
    assert_eq!(body(&ret("99999999999999999999999")), Exp::Constant(u64::MAX));
    assert_eq!(body(&ret("18446744073709551615")), Exp::Constant(u64::MAX));
    assert_eq!(body(&ret("4294967296")), Exp::Constant(4294967296));
}

#[test]
fn missing_semicolon_is_unexpected_token() {
    let toks = tokenize(&b"int main(void) { return 2 }".to_vec()).unwrap();
    assert_eq!(
        parse(&toks),
        Err(ParseError::UnexpectedToken {
            expected: Expected::Token(TokenKind::Punct(Punct::Semicolon)),
            found: TokenKind::Punct(Punct::RBrace),
            line: 1,
            column: 27,
        })
    );
}

#[test]
fn missing_expression() {
    let toks = tokenize(&b"int main(void) { return ; }".to_vec()).unwrap();
    assert_eq!(
        parse(&toks),
        Err(ParseError::UnexpectedToken {
            expected: Expected::Expression,
            found: TokenKind::Punct(Punct::Semicolon),
            line: 1,
            column: 25,
        })
    );
}

#[test]
fn trailing_tokens_rejected() {
    let toks = tokenize(&b"int main(void) { return 2; } }".to_vec()).unwrap();
    assert_eq!(
        parse(&toks),
        Err(ParseError::UnexpectedToken {
            expected: Expected::Token(TokenKind::Eof),
            found: TokenKind::Punct(Punct::RBrace),
            line: 1,
            column: 30,
        })
    );
}

#[test]
fn decrement_is_not_an_expression() {
    let toks = tokenize(&ret("--2").into_bytes()).unwrap();
    assert_eq!(
        parse(&toks),
        Err(ParseError::UnexpectedToken {
            expected: Expected::Expression,
            found: TokenKind::Punct(Punct::Decrement),
            line: 1,
            column: 25,
        })
    );
}

#[test]
fn lowering_of_operators() {
    let toks = tokenize(&ret("!(10 % 3 >= 1)").into_bytes()).unwrap();
    let unit = generate(&parse(&toks).unwrap()).unwrap();
    assert_eq!(
        unit.functions[0].instructions,
        vec![
            Instruction::PushFrame,
            Instruction::SetFrame,
            Instruction::LoadConstant(10),
            Instruction::PushAx,
            Instruction::LoadConstant(3),
            Instruction::MoveAxToCx,
            Instruction::PopAx,
            Instruction::SignExtend,
            Instruction::DivCx,
            Instruction::MoveDxToAx,
            Instruction::PushAx,
            Instruction::LoadConstant(1),
            Instruction::MoveAxToCx,
            Instruction::PopAx,
            Instruction::CompareCx,
            Instruction::ClearAx,
            Instruction::SetCondition(Condition::GreaterEqual),
            Instruction::CompareZero,
            Instruction::ClearAx,
            Instruction::SetCondition(Condition::Equal),
            Instruction::RestoreStack,
            Instruction::PopFrame,
            Instruction::Ret,
        ]
    );
    let text = emit(&unit);
    assert!(text.contains("\tmovl\t$10, %eax\n\tpushq\t%rax\n"));
    assert!(text.contains("\tsetge\t%al\n"));
    assert!(text.contains("\tidivl\t%ecx\n\tmovl\t%edx, %eax\n"));
}

#[test]
fn logical_operators_unsupported() {
    let toks = tokenize(&ret("1 && 2").into_bytes()).unwrap();
    assert_eq!(generate(&parse(&toks).unwrap()), Err(CodegenError::UnsupportedConstruct));
    let toks = tokenize(&ret("-(1 || 2)").into_bytes()).unwrap();
    assert_eq!(generate(&parse(&toks).unwrap()), Err(CodegenError::UnsupportedConstruct));
}

#[test]
fn constant_range() {
    let toks = tokenize(&ret("2147483647").into_bytes()).unwrap();
    let unit = generate(&parse(&toks).unwrap()).unwrap();
    assert_eq!(unit.functions[0].instructions[2], Instruction::LoadConstant(2147483647));
    assert!(emit(&unit).contains("\tmovl\t$2147483647, %eax\n"));
    let toks = tokenize(&ret("2147483648").into_bytes()).unwrap();
    assert_eq!(generate(&parse(&toks).unwrap()), Err(CodegenError::UnsupportedConstruct));
}

#[test]
fn emit_zero_and_name() {
    let toks = tokenize(&b"int start_1(void) { return 0; }".to_vec()).unwrap();
    let text = emit(&generate(&parse(&toks).unwrap()).unwrap());
    assert!(text.starts_with("\t.globl\tstart_1\nstart_1:\n"));
    assert!(text.contains("\tmovl\t$0, %eax\n"));
}
