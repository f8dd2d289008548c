use vstd::prelude::*;

use crate::ast::{Program, Statement};
use crate::codegen::{AssemblyUnit, CodegenError, generate, generate_matches, lower_statement};
use crate::lexer::{LexError, lex, tokenize, tokenize_matches};
use crate::parser::{ParseError, parse, parse_matches, program_of};
use crate::token::{Token, lexemes_of};
use vstd::string::StringExecFns;

verus! {

/// The stages of one compiler run, and its two ends.
#[derive(Clone, Copy, Debug, PartialEq, Eq, Structural)]
pub enum Stage {
    Preprocessing,
    Lexing,
    Parsing,
    CodeGen,
    Assembling,
    Done,
    Failed,
}

/// The command-line options; each stage flag stops the run after its stage.
#[derive(Clone, Copy, Debug, PartialEq, Eq, Structural)]
pub struct Flags {
    pub lex: bool,
    pub parse: bool,
    pub codegen: bool,
    pub help: bool,
}

#[derive(Clone, Copy, Debug, PartialEq, Eq, Structural)]
pub enum UsageError {
    /// No argument after the program name.
    MissingInput,
    /// The first argument names no existing file.
    InvalidFile,
    /// The argument at this position is neither the input nor a known flag.
    InvalidArgument(usize),
}

pub open spec fn is_lex_flag(a: Seq<char>) -> bool {
    a == "--lex"@ || a == "-L"@
}

pub open spec fn is_parse_flag(a: Seq<char>) -> bool {
    a == "--parse"@ || a == "-P"@
}

pub open spec fn is_codegen_flag(a: Seq<char>) -> bool {
    a == "--codegen"@ || a == "-C"@
}

pub open spec fn is_help_flag(a: Seq<char>) -> bool {
    a == "--help"@ || a == "-h"@
}

pub open spec fn is_flag(a: Seq<char>) -> bool {
    is_lex_flag(a) || is_parse_flag(a) || is_codegen_flag(a) || is_help_flag(a)
}

pub open spec fn arg_views(args: Seq<String>) -> Seq<Seq<char>> {
    args.map_values(|a: String| a@)
}

/// The flags named anywhere after the program name, in any order.
pub open spec fn flags_of(args: Seq<Seq<char>>) -> Flags {
    Flags {
        lex: exists|i: int| 1 <= i < args.len() && is_lex_flag(#[trigger] args[i]),
        parse: exists|i: int| 1 <= i < args.len() && is_parse_flag(#[trigger] args[i]),
        codegen: exists|i: int| 1 <= i < args.len() && is_codegen_flag(#[trigger] args[i]),
        help: exists|i: int| 1 <= i < args.len() && is_help_flag(#[trigger] args[i]),
    }
}

/// The first position from `i` on that holds no flag.
pub open spec fn stray_from(args: Seq<Seq<char>>, i: int) -> Option<int>
    decreases args.len() - i,
{
    if i < 0 || i >= args.len() {
        None
    } else if !is_flag(args[i]) {
        Some(i)
    } else {
        stray_from(args, i + 1)
    }
}

/// `prog <file> [flags]`: the input comes first and must exist unless it is itself
/// a flag; every later argument must be a flag.
pub open spec fn usage_of(args: Seq<Seq<char>>, input_exists: bool) -> Result<Flags, UsageError> {
    if args.len() < 2 {
        Err(UsageError::MissingInput)
    } else if !is_flag(args[1]) && !input_exists {
        Err(UsageError::InvalidFile)
    } else {
        match stray_from(args, 2) {
            Some(i) => Err(UsageError::InvalidArgument(i as usize)),
            None => Ok(flags_of(args)),
        }
    }
}

fn arg_is(a: &String, lit: &str) -> (r: bool)
    ensures
        r == (a@ == lit@),
{
    let l = String::from_str(lit);
    *a == l
}

/// Reads the command line (`args[0]` is the program name); `input_exists` tells
/// whether the first argument names an existing file.
pub fn process_args(args: &Vec<String>, input_exists: bool) -> (r: Result<Flags, UsageError>)
    ensures
        r == usage_of(arg_views(args@), input_exists),
{
    let ghost a = arg_views(args@);
    assert(a.len() == args@.len());
    if args.len() < 2 {
        return Err(UsageError::MissingInput);
    }
    let mut flags = Flags { lex: false, parse: false, codegen: false, help: false };
    let mut i: usize = 1;
    while i < args.len()
        invariant
            a == arg_views(args@),
            a.len() == args@.len(),
            1 <= i <= args@.len(),
            i > 1 ==> is_flag(a[1]) || input_exists,
            i >= 2 ==> stray_from(a, 2) == stray_from(a, i as int),
            flags.lex == exists|j: int| 1 <= j < i && is_lex_flag(#[trigger] a[j]),
            flags.parse == exists|j: int| 1 <= j < i && is_parse_flag(#[trigger] a[j]),
            flags.codegen == exists|j: int| 1 <= j < i && is_codegen_flag(#[trigger] a[j]),
            flags.help == exists|j: int| 1 <= j < i && is_help_flag(#[trigger] a[j]),
        decreases args@.len() - i,
    {
        let arg = &args[i];
        assert(arg@ == a[i as int]);
        let lex = arg_is(arg, "--lex") || arg_is(arg, "-L");
        let parse = arg_is(arg, "--parse") || arg_is(arg, "-P");
        let codegen = arg_is(arg, "--codegen") || arg_is(arg, "-C");
        let help = arg_is(arg, "--help") || arg_is(arg, "-h");
        if !(lex || parse || codegen || help) {
            if i == 1 {
                if !input_exists {
                    return Err(UsageError::InvalidFile);
                }
            } else {
                return Err(UsageError::InvalidArgument(i));
            }
        }
        flags.lex = flags.lex || lex;
        flags.parse = flags.parse || parse;
        flags.codegen = flags.codegen || codegen;
        flags.help = flags.help || help;
        i = i + 1;
    }
    assert(stray_from(a, args@.len() as int) is None);
    proof {
        if args@.len() == 2 {
            assert(stray_from(a, 2) is None);
        }
    }
    assert(flags == flags_of(a));
    Ok(flags)
}

/// The stage after which a run with these flags stops: the earliest stage whose
/// flag is set, or assembling when none is.
pub open spec fn last_stage(f: Flags) -> Stage {
    if f.lex {
        Stage::Lexing
    } else if f.parse {
        Stage::Parsing
    } else if f.codegen {
        Stage::CodeGen
    } else {
        Stage::Assembling
    }
}

pub open spec fn successor(s: Stage) -> Stage {
    match s {
        Stage::Preprocessing => Stage::Lexing,
        Stage::Lexing => Stage::Parsing,
        Stage::Parsing => Stage::CodeGen,
        Stage::CodeGen => Stage::Assembling,
        Stage::Assembling => Stage::Done,
        Stage::Done => Stage::Done,
        Stage::Failed => Stage::Failed,
    }
}

/// One transition: a failed stage ends the run in `Failed`; a stage that succeeded
/// ends it in `Done` if it is the last one asked for, else the next stage follows.
pub open spec fn step(s: Stage, f: Flags, succeeded: bool) -> Stage {
    match s {
        Stage::Done => Stage::Done,
        Stage::Failed => Stage::Failed,
        _ => if !succeeded {
            Stage::Failed
        } else if s == last_stage(f) {
            Stage::Done
        } else {
            successor(s)
        },
    }
}

pub fn stop_after(f: &Flags) -> (r: Stage)
    ensures
        r == last_stage(*f),
{
    if f.lex {
        Stage::Lexing
    } else if f.parse {
        Stage::Parsing
    } else if f.codegen {
        Stage::CodeGen
    } else {
        Stage::Assembling
    }
}

pub fn next_stage(s: Stage, f: &Flags, succeeded: bool) -> (r: Stage)
    ensures
        r == step(s, *f, succeeded),
{
    match s {
        Stage::Done => Stage::Done,
        Stage::Failed => Stage::Failed,
        _ => {
            if !succeeded {
                Stage::Failed
            } else if s == stop_after(f) {
                Stage::Done
            } else {
                match s {
                    Stage::Preprocessing => Stage::Lexing,
                    Stage::Lexing => Stage::Parsing,
                    Stage::Parsing => Stage::CodeGen,
                    Stage::CodeGen => Stage::Assembling,
                    _ => Stage::Done,
                }
            }
        },
    }
}

#[derive(Clone, Copy, Debug, PartialEq, Eq, Structural)]
pub enum CompileError {
    Lex(LexError),
    Parse(ParseError),
    Codegen(CodegenError),
}

/// What the last stage that ran handed on.
#[derive(Debug, PartialEq, Eq)]
pub enum Artifact {
    Tokens(Vec<Token>),
    Tree(Program),
    Assembly(AssemblyUnit),
}

/// The stages entered after preprocessing, in order, and what the run produced.
#[derive(Debug, PartialEq, Eq)]
pub struct Run {
    pub stages: Vec<Stage>,
    pub outcome: Result<Artifact, CompileError>,
}

pub open spec fn lexes(src: Seq<u8>) -> bool {
    lex(src) is Ok
}

pub open spec fn parses(src: Seq<u8>) -> bool {
    lexes(src) && program_of(lex(src)->Ok_0) is Ok
}

pub open spec fn lowers(src: Seq<u8>) -> bool {
    parses(src) && lower_statement(Statement::Return(program_of(lex(src)->Ok_0)->Ok_0.1)) is Ok
}

/// The stages that a run over preprocessed text `src` passes through.
pub open spec fn trace_of(src: Seq<u8>, f: Flags) -> Seq<Stage> {
    let l = step(Stage::Lexing, f, lexes(src));
    if l != Stage::Parsing {
        seq![Stage::Lexing, l]
    } else {
        let p = step(Stage::Parsing, f, parses(src));
        if p != Stage::CodeGen {
            seq![Stage::Lexing, Stage::Parsing, p]
        } else {
            let c = step(Stage::CodeGen, f, lowers(src));
            if c != Stage::Assembling {
                seq![Stage::Lexing, Stage::Parsing, Stage::CodeGen, c]
            } else {
                seq![Stage::Lexing, Stage::Parsing, Stage::CodeGen, Stage::Assembling]
            }
        }
    }
}

/// The outcome of a run: the first stage error, or the output of the last stage run.
pub open spec fn outcome_matches(src: Seq<u8>, f: Flags, r: Result<Artifact, CompileError>) -> bool {
    match lex(src) {
        Err((k, l, c)) => r == Err::<Artifact, CompileError>(
            CompileError::Lex(LexError { kind: k, line: l as usize, column: c as usize }),
        ),
        Ok(ls) => if last_stage(f) == Stage::Lexing {
            r matches Ok(Artifact::Tokens(v)) && lexemes_of(v@) == ls
        } else {
            match program_of(ls) {
                Err(x) => r == Err::<Artifact, CompileError>(CompileError::Parse(x)),
                Ok((name, e)) => if last_stage(f) == Stage::Parsing {
                    r matches Ok(Artifact::Tree(p)) && parse_matches(Ok(p), Ok((name, e)))
                } else {
                    match lower_statement(Statement::Return(e)) {
                        Err(x) => r == Err::<Artifact, CompileError>(CompileError::Codegen(x)),
                        Ok(_) => r matches Ok(Artifact::Assembly(u)) && u.functions@.len() == 1
                            && u.functions@[0].name@ == name
                            && u.functions@[0].instructions@ == lower_statement(Statement::Return(e))->Ok_0,
                    }
                },
            }
        },
    }
}

/// Name of the preprocessed source for an input whose file stem is `stem`.
pub fn processed_filename(stem: &str) -> (r: String)
    ensures
        r@ == stem@ + "_preprocessed.i"@,
{
    let mut r = String::from_str(stem);
    r.append("_preprocessed.i");
    r
}

/// Name of the generated assembly for an input whose file stem is `stem`.
pub fn assembly_filename(stem: &str) -> (r: String)
    ensures
        r@ == stem@ + ".s"@,
{
    let mut r = String::from_str(stem);
    r.append(".s");
    r
}

/// A lexical error ends the run in `Failed` straight after lexing: parsing and
/// code generation never run.
pub proof fn lemma_lex_error_halts(src: Seq<u8>, f: Flags)
    requires
        lex(src) is Err,
    ensures
        trace_of(src, f) == seq![Stage::Lexing, Stage::Failed],
        !trace_of(src, f).contains(Stage::Parsing),
        !trace_of(src, f).contains(Stage::CodeGen),
{
    assert(trace_of(src, f)[0] != Stage::Parsing && trace_of(src, f)[1] != Stage::Parsing);
    assert(trace_of(src, f)[0] != Stage::CodeGen && trace_of(src, f)[1] != Stage::CodeGen);
}

/// The flags depend only on which arguments follow the program name, not on
/// their order or repetition.
pub proof fn lemma_flag_order_irrelevant(a: Seq<Seq<char>>, b: Seq<Seq<char>>)
    requires
        a.len() >= 1,
        b.len() >= 1,
        a.drop_first().to_set() == b.drop_first().to_set(),
    ensures
        flags_of(a) == flags_of(b),
{
    assert forall|x: Seq<char>| a.drop_first().contains(x) <==> b.drop_first().contains(x) by {
        assert(a.drop_first().to_set().contains(x) == a.drop_first().contains(x));
        assert(b.drop_first().to_set().contains(x) == b.drop_first().contains(x));
    }
    assert forall|x: Seq<char>| #[trigger] occurs_after_first(a, x) == occurs_after_first(b, x) by {
        assert(a.drop_first().to_set().contains(x) == a.drop_first().contains(x));
        assert(b.drop_first().to_set().contains(x) == b.drop_first().contains(x));
        if occurs_after_first(a, x) {
            let i = choose|i: int| 1 <= i < a.len() && a[i] == x;
            assert(a.drop_first()[i - 1] == x);
            assert(a.drop_first().contains(x));
            assert(b.drop_first().contains(x));
            let j = choose|j: int| 0 <= j < b.drop_first().len() && b.drop_first()[j] == x;
            assert(b[j + 1] == x);
        }
        if occurs_after_first(b, x) {
            let i = choose|i: int| 1 <= i < b.len() && b[i] == x;
            assert(b.drop_first()[i - 1] == x);
            assert(b.drop_first().contains(x));
            assert(a.drop_first().contains(x));
            let j = choose|j: int| 0 <= j < a.drop_first().len() && a.drop_first()[j] == x;
            assert(a[j + 1] == x);
        }
    }
    lemma_named_flag(a, b, "--lex"@, "-L"@);
    lemma_named_flag(a, b, "--parse"@, "-P"@);
    lemma_named_flag(a, b, "--codegen"@, "-C"@);
    lemma_named_flag(a, b, "--help"@, "-h"@);
}

spec fn occurs_after_first(a: Seq<Seq<char>>, x: Seq<char>) -> bool {
    exists|i: int| 1 <= i < a.len() && a[i] == x
}

proof fn lemma_named_flag(a: Seq<Seq<char>>, b: Seq<Seq<char>>, long: Seq<char>, short: Seq<char>)
    requires
        forall|x: Seq<char>| #[trigger] occurs_after_first(a, x) == occurs_after_first(b, x),
    ensures
        (exists|i: int| 1 <= i < a.len() && (#[trigger] a[i] == long || a[i] == short))
            == (exists|i: int| 1 <= i < b.len() && (#[trigger] b[i] == long || b[i] == short)),
{
    if exists|i: int| 1 <= i < a.len() && (#[trigger] a[i] == long || a[i] == short) {
        let i = choose|i: int| 1 <= i < a.len() && (#[trigger] a[i] == long || a[i] == short);
        let x = a[i];
        assert(occurs_after_first(a, x));
        assert(occurs_after_first(b, x));
        let j = choose|j: int| 1 <= j < b.len() && b[j] == x;
        assert(b[j] == long || b[j] == short);
    }
    if exists|i: int| 1 <= i < b.len() && (#[trigger] b[i] == long || b[i] == short) {
        let i = choose|i: int| 1 <= i < b.len() && (#[trigger] b[i] == long || b[i] == short);
        let x = b[i];
        assert(occurs_after_first(b, x));
        assert(occurs_after_first(a, x));
        let j = choose|j: int| 1 <= j < a.len() && a[j] == x;
        assert(a[j] == long || a[j] == short);
    }
}

/// With `--parse` and no `--lex`, a run lexes and parses and stops: it never
/// reaches code generation or assembling.
pub proof fn lemma_parse_flag_stops_after_parsing(src: Seq<u8>, f: Flags)
    requires
        f.parse,
        !f.lex,
    ensures
        last_stage(f) == Stage::Parsing,
        !trace_of(src, f).contains(Stage::CodeGen),
        !trace_of(src, f).contains(Stage::Assembling),
        parses(src) ==> trace_of(src, f) == seq![Stage::Lexing, Stage::Parsing, Stage::Done],
{
    let t = trace_of(src, f);
    assert(forall|i: int| 0 <= i < t.len() ==> t[i] != Stage::CodeGen && t[i] != Stage::Assembling);
}

/// Two runs over the same text with the same flags agree: the same stages, and,
/// where one yields assembly, the other yields the same functions and instructions.
pub proof fn lemma_runs_agree(src: Seq<u8>, f: Flags, r1: Run, r2: Run)
    requires
        r1.stages@ == trace_of(src, f),
        r2.stages@ == trace_of(src, f),
        outcome_matches(src, f, r1.outcome),
        outcome_matches(src, f, r2.outcome),
    ensures
        r1.stages@ == r2.stages@,
        r1.outcome is Err ==> r1.outcome == r2.outcome,
        r1.outcome matches Ok(Artifact::Assembly(u1)) ==> r2.outcome matches Ok(Artifact::Assembly(u2))
            && u1.functions@.len() == u2.functions@.len()
            && (forall|i: int| 0 <= i < u1.functions@.len() ==> #[trigger] u1.functions@[i].name@ == u2.functions@[i].name@
                && u1.functions@[i].instructions@ == u2.functions@[i].instructions@),
{
}

/// Runs lexing, parsing and code generation over preprocessed text, stopping
/// after the last stage the flags ask for or at the first error.
pub fn run_pipeline(src: &Vec<u8>, f: &Flags) -> (r: Run)
    requires
        src@.len() < usize::MAX,
    ensures
        r.stages@ == trace_of(src@, *f),
        outcome_matches(src@, *f, r.outcome),
{
    let mut stages: Vec<Stage> = vec![Stage::Lexing];
    let toks = match tokenize(src) {
        Err(e) => {
            stages.push(next_stage(Stage::Lexing, f, false));
            return Run { stages, outcome: Err(CompileError::Lex(e)) };
        },
        Ok(toks) => toks,
    };
    let after_lex = next_stage(Stage::Lexing, f, true);
    stages.push(after_lex);
    if after_lex == Stage::Done {
        return Run { stages, outcome: Ok(Artifact::Tokens(toks)) };
    }
    let program = match parse(&toks) {
        Err(e) => {
            stages.push(next_stage(Stage::Parsing, f, false));
            return Run { stages, outcome: Err(CompileError::Parse(e)) };
        },
        Ok(p) => p,
    };
    let after_parse = next_stage(Stage::Parsing, f, true);
    stages.push(after_parse);
    if after_parse == Stage::Done {
        return Run { stages, outcome: Ok(Artifact::Tree(program)) };
    }
    match generate(&program) {
        Err(e) => {
            stages.push(next_stage(Stage::CodeGen, f, false));
            Run { stages, outcome: Err(CompileError::Codegen(e)) }
        },
        Ok(unit) => {
            stages.push(next_stage(Stage::CodeGen, f, true));
            Run { stages, outcome: Ok(Artifact::Assembly(unit)) }
        },
    }
}

} // verus!
