use mc::driver::{
    assembly_filename, next_stage, process_args, processed_filename, run_pipeline, stop_after, Artifact,
    CompileError, Flags, Stage, UsageError,
};
use mc::emit::emit;
use mc::lexer::{LexError, LexErrorKind};
use mc::parser::ParseError;

fn args(xs: &[&str]) -> Vec<String> {
    xs.iter().map(|s| s.to_string()).collect()
}

fn flags(lex: bool, parse: bool, codegen: bool) -> Flags {
    Flags { lex, parse, codegen, help: false }
}

const RETURN_TWO: &[u8] = b"int main(void) { return 2; }";

#[test]
fn nonexistent_input_is_usage_error() {
    assert_eq!(process_args(&args(&["mc", "missing.c"]), false), Err(UsageError::InvalidFile));
}

#[test]
fn missing_input() {
    assert_eq!(process_args(&args(&["mc"]), false), Err(UsageError::MissingInput));
    assert_eq!(process_args(&args(&[]), false), Err(UsageError::MissingInput));
}

#[test]
fn stray_argument() {
    assert_eq!(
        process_args(&args(&["mc", "a.c", "--lex", "--bogus", "x"]), true),
        Err(UsageError::InvalidArgument(3))
    );
}

#[test]
fn flags_read() {
    assert_eq!(
        process_args(&args(&["mc", "a.c", "-P", "--codegen"]), true),
        Ok(Flags { lex: false, parse: true, codegen: true, help: false })
    );
    assert_eq!(
        process_args(&args(&["mc", "--help"]), false),
        Ok(Flags { lex: false, parse: false, codegen: false, help: true })
    );
}

#[test]
fn flag_order_does_not_matter() {
    let a = process_args(&args(&["mc", "a.c", "--parse", "--lex"]), true);
    let b = process_args(&args(&["mc", "a.c", "--lex", "--parse"]), true);
    assert_eq!(a, b);
    assert_eq!(stop_after(&a.unwrap()), Stage::Lexing);
}

#[test]
fn parse_flag_stops_before_codegen() {
    let f = process_args(&args(&["mc", "a.c", "--parse"]), true).unwrap();
    assert_eq!(stop_after(&f), Stage::Parsing);
    let run = run_pipeline(&RETURN_TWO.to_vec(), &f);
    assert_eq!(run.stages, vec![Stage::Lexing, Stage::Parsing, Stage::Done]);
    assert!(matches!(run.outcome, Ok(Artifact::Tree(_))));
}

#[test]
fn lex_flag_stops_after_lexing() {
    let run = run_pipeline(&RETURN_TWO.to_vec(), &flags(true, true, false));
    assert_eq!(run.stages, vec![Stage::Lexing, Stage::Done]);
    match run.outcome {
        Ok(Artifact::Tokens(t)) => assert_eq!(t.len(), 11),
        _ => panic!("expected tokens"),
    }
}

#[test]
fn codegen_flag_stops_after_codegen() {
    let run = run_pipeline(&RETURN_TWO.to_vec(), &flags(false, false, true));
    assert_eq!(run.stages, vec![Stage::Lexing, Stage::Parsing, Stage::CodeGen, Stage::Done]);
    assert!(matches!(run.outcome, Ok(Artifact::Assembly(_))));
}

#[test]
fn full_run_reaches_assembling() {
    let run = run_pipeline(&RETURN_TWO.to_vec(), &flags(false, false, false));
    assert_eq!(run.stages, vec![Stage::Lexing, Stage::Parsing, Stage::CodeGen, Stage::Assembling]);
    assert_eq!(next_stage(Stage::Assembling, &flags(false, false, false), true), Stage::Done);
    assert_eq!(next_stage(Stage::Assembling, &flags(false, false, false), false), Stage::Failed);
}

#[test]
fn lex_error_halts_pipeline() {
    let run = run_pipeline(&b"int main(void) { return $; }".to_vec(), &flags(false, false, false));
    assert_eq!(run.stages, vec![Stage::Lexing, Stage::Failed]);
    assert_eq!(
        run.outcome,
        Err(CompileError::Lex(LexError { kind: LexErrorKind::UnrecognizedCharacter, line: 1, column: 25 }))
    );
}

#[test]
fn unmatched_brace_fails_in_parsing() {
    let run = run_pipeline(&b"int main(void) { return 2;".to_vec(), &flags(false, false, false));
    assert_eq!(run.stages, vec![Stage::Lexing, Stage::Parsing, Stage::Failed]);
    assert_eq!(run.outcome, Err(CompileError::Parse(ParseError::UnexpectedEof)));
}

#[test]
fn codegen_error_fails_in_codegen() {
    let run = run_pipeline(&b"int main(void) { return 1 || 0; }".to_vec(), &flags(false, false, false));
    assert_eq!(run.stages, vec![Stage::Lexing, Stage::Parsing, Stage::CodeGen, Stage::Failed]);
    assert!(matches!(run.outcome, Err(CompileError::Codegen(_))));
}

#[test]
fn repeated_runs_give_identical_assembly() {
    let src = b"int main(void) { return (1 + 2) * -3 / 4; }".to_vec();
    let f = flags(false, false, true);
    let text = |r: mc::driver::Run| match r.outcome {
        Ok(Artifact::Assembly(u)) => emit(&u),
        _ => panic!("expected assembly"),
    };
    let a = text(run_pipeline(&src, &f));
    let b = text(run_pipeline(&src, &f));
    assert_eq!(a, b);
    assert!(a.contains("\timull\t%ecx, %eax\n"));
}

#[test]
fn stage_transitions() {
    let f = flags(false, true, false);
    assert_eq!(next_stage(Stage::Preprocessing, &f, true), Stage::Lexing);
    assert_eq!(next_stage(Stage::Lexing, &f, true), Stage::Parsing);
    assert_eq!(next_stage(Stage::Parsing, &f, true), Stage::Done);
    assert_eq!(next_stage(Stage::Parsing, &f, false), Stage::Failed);
    assert_eq!(next_stage(Stage::Preprocessing, &f, false), Stage::Failed);
    assert_eq!(next_stage(Stage::Done, &f, false), Stage::Done);
    assert_eq!(next_stage(Stage::Failed, &f, true), Stage::Failed);
}

#[test]
fn file_names() {
    assert_eq!(processed_filename("return_2"), "return_2_preprocessed.i");
    assert_eq!(assembly_filename("return_2"), "return_2.s");
}
