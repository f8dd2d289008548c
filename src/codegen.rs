use vstd::prelude::*;

use crate::ast::{BinaryOp, Exp, Program, Statement, UnaryOp};

verus! {

/// Condition codes for `setCC`.
#[derive(Clone, Copy, Debug, PartialEq, Eq, Structural)]
pub enum Condition {
    Equal,
    NotEqual,
    Less,
    LessEqual,
    Greater,
    GreaterEqual,
}

/// x86-64 instructions of the fixed lowering. Every expression leaves its value
/// in `%eax`; the left operand of a binary operator waits on the stack while
/// the right one is computed.
#[derive(Clone, Copy, Debug, PartialEq, Eq, Structural)]
pub enum Instruction {
    /// pushq %rbp
    PushFrame,
    /// movq %rsp, %rbp
    SetFrame,
    /// movq %rbp, %rsp
    RestoreStack,
    /// popq %rbp
    PopFrame,
    /// ret
    Ret,
    /// movl $value, %eax
    LoadConstant(u32),
    /// negl %eax
    Negate,
    /// notl %eax
    Complement,
    /// cmpl $0, %eax
    CompareZero,
    /// movl $0, %eax
    ClearAx,
    /// setCC %al
    SetCondition(Condition),
    /// pushq %rax
    PushAx,
    /// movl %eax, %ecx
    MoveAxToCx,
    /// popq %rax
    PopAx,
    /// addl %ecx, %eax
    AddCx,
    /// subl %ecx, %eax
    SubCx,
    /// imull %ecx, %eax
    MulCx,
    /// cdq
    SignExtend,
    /// idivl %ecx
    DivCx,
    /// movl %edx, %eax
    MoveDxToAx,
    /// cmpl %ecx, %eax
    CompareCx,
}

#[derive(Clone, Copy, Debug, PartialEq, Eq, Structural)]
pub enum CodegenError {
    /// A node the generator does not lower: `&&`, `||`, or a constant above `i32::MAX`.
    UnsupportedConstruct,
}

/// One function: its label and its instructions.
#[derive(Clone, Debug, PartialEq, Eq)]
pub struct AsmFunction {
    pub name: Vec<u8>,
    pub instructions: Vec<Instruction>,
}

#[derive(Clone, Debug, PartialEq, Eq)]
pub struct AssemblyUnit {
    pub functions: Vec<AsmFunction>,
}

pub open spec fn compare_tail(c: Condition) -> Seq<Instruction> {
    seq![Instruction::CompareCx, Instruction::ClearAx, Instruction::SetCondition(c)]
}

/// What follows the two operands of a binary operator (left in `%eax`, right in `%ecx`).
pub open spec fn binary_tail(op: BinaryOp) -> Option<Seq<Instruction>> {
    match op {
        BinaryOp::Add => Some(seq![Instruction::AddCx]),
        BinaryOp::Subtract => Some(seq![Instruction::SubCx]),
        BinaryOp::Multiply => Some(seq![Instruction::MulCx]),
        BinaryOp::Divide => Some(seq![Instruction::SignExtend, Instruction::DivCx]),
        BinaryOp::Remainder => Some(seq![Instruction::SignExtend, Instruction::DivCx, Instruction::MoveDxToAx]),
        BinaryOp::Less => Some(compare_tail(Condition::Less)),
        BinaryOp::LessEqual => Some(compare_tail(Condition::LessEqual)),
        BinaryOp::Greater => Some(compare_tail(Condition::Greater)),
        BinaryOp::GreaterEqual => Some(compare_tail(Condition::GreaterEqual)),
        BinaryOp::Equal => Some(compare_tail(Condition::Equal)),
        BinaryOp::NotEqual => Some(compare_tail(Condition::NotEqual)),
        BinaryOp::And | BinaryOp::Or => None,
    }
}

pub open spec fn unary_tail(op: UnaryOp) -> Seq<Instruction> {
    match op {
        UnaryOp::Negate => seq![Instruction::Negate],
        UnaryOp::Complement => seq![Instruction::Complement],
        UnaryOp::Not => seq![Instruction::CompareZero, Instruction::ClearAx, Instruction::SetCondition(Condition::Equal)],
    }
}

/// The instructions that leave the value of `e` in `%eax`.
pub open spec fn lower_exp(e: Exp) -> Result<Seq<Instruction>, CodegenError>
    decreases e,
{
    match e {
        Exp::Constant(c) => if c <= 0x7fff_ffff {
            Ok(seq![Instruction::LoadConstant(c as u32)])
        } else {
            Err(CodegenError::UnsupportedConstruct)
        },
        Exp::Unary(op, x) => match lower_exp(*x) {
            Ok(xs) => Ok(xs + unary_tail(op)),
            Err(err) => Err(err),
        },
        Exp::Binary(op, a, b) => match binary_tail(op) {
            None => Err(CodegenError::UnsupportedConstruct),
            Some(tail) => match lower_exp(*a) {
                Err(err) => Err(err),
                Ok(xs) => match lower_exp(*b) {
                    Err(err) => Err(err),
                    Ok(ys) => Ok(xs + seq![Instruction::PushAx] + ys + seq![Instruction::MoveAxToCx, Instruction::PopAx]
                        + tail),
                },
            },
        },
    }
}

pub open spec fn prologue() -> Seq<Instruction> {
    seq![Instruction::PushFrame, Instruction::SetFrame]
}

pub open spec fn epilogue() -> Seq<Instruction> {
    seq![Instruction::RestoreStack, Instruction::PopFrame, Instruction::Ret]
}

/// A function body: the frame is set up, the returned value is computed into
/// `%eax`, and the frame is torn down.
pub open spec fn lower_statement(s: Statement) -> Result<Seq<Instruction>, CodegenError> {
    match s {
        Statement::Return(e) => match lower_exp(e) {
            Ok(xs) => Ok(prologue() + xs + epilogue()),
            Err(err) => Err(err),
        },
    }
}

/// `generate` returns what `lower_statement` describes for the program's one function.
pub open spec fn generate_matches(p: Program, r: Result<AssemblyUnit, CodegenError>) -> bool {
    match (r, lower_statement(p.function.body)) {
        (Ok(u), Ok(body)) => u.functions@.len() == 1 && u.functions@[0].name@ == p.function.name@
            && u.functions@[0].instructions@ == body,
        (Err(x), Err(y)) => x == y,
        _ => false,
    }
}

fn push_all(out: &mut Vec<Instruction>, more: &[Instruction])
    ensures
        final(out)@ == old(out)@ + more@,
{
    let mut i: usize = 0;
    while i < more.len()
        invariant
            0 <= i <= more@.len(),
            out@ == old(out)@ + more@.subrange(0, i as int),
        decreases more@.len() - i,
    {
        out.push(more[i]);
        i = i + 1;
        assert(out@ =~= old(out)@ + more@.subrange(0, i as int));
    }
    assert(more@.subrange(0, more@.len() as int) =~= more@);
}

fn lower_binary_tail(op: BinaryOp, out: &mut Vec<Instruction>) -> (r: bool)
    ensures
        r == binary_tail(op).is_some(),
        r ==> final(out)@ == old(out)@ + binary_tail(op).unwrap(),
        !r ==> final(out)@ == old(out)@,
{
    let tail: Vec<Instruction> = match op {
        BinaryOp::Add => vec![Instruction::AddCx],
        BinaryOp::Subtract => vec![Instruction::SubCx],
        BinaryOp::Multiply => vec![Instruction::MulCx],
        BinaryOp::Divide => vec![Instruction::SignExtend, Instruction::DivCx],
        BinaryOp::Remainder => vec![Instruction::SignExtend, Instruction::DivCx, Instruction::MoveDxToAx],
        BinaryOp::Less => vec![Instruction::CompareCx, Instruction::ClearAx, Instruction::SetCondition(Condition::Less)],
        BinaryOp::LessEqual => vec![Instruction::CompareCx, Instruction::ClearAx, Instruction::SetCondition(Condition::LessEqual)],
        BinaryOp::Greater => vec![Instruction::CompareCx, Instruction::ClearAx, Instruction::SetCondition(Condition::Greater)],
        BinaryOp::GreaterEqual => vec![Instruction::CompareCx, Instruction::ClearAx, Instruction::SetCondition(Condition::GreaterEqual)],
        BinaryOp::Equal => vec![Instruction::CompareCx, Instruction::ClearAx, Instruction::SetCondition(Condition::Equal)],
        BinaryOp::NotEqual => vec![Instruction::CompareCx, Instruction::ClearAx, Instruction::SetCondition(Condition::NotEqual)],
        BinaryOp::And | BinaryOp::Or => {
            return false;
        },
    };
    assert(tail@ =~= binary_tail(op).unwrap());
    push_all(out, tail.as_slice());
    true
}

/// Appends the lowering of `e` to `out`.
fn lower_exp_into(e: &Exp, out: &mut Vec<Instruction>) -> (r: Result<(), CodegenError>)
    ensures
        match lower_exp(*e) {
            Ok(xs) => r is Ok && final(out)@ == old(out)@ + xs,
            Err(err) => r == Err::<(), CodegenError>(err),
        },
    decreases e,
{
    match e {
        Exp::Constant(c) => {
            if *c <= 0x7fff_ffff {
                out.push(Instruction::LoadConstant(*c as u32));
                assert(out@ =~= old(out)@ + seq![Instruction::LoadConstant(*c as u32)]);
                Ok(())
            } else {
                Err(CodegenError::UnsupportedConstruct)
            }
        },
        Exp::Unary(op, x) => {
            match lower_exp_into(x, out) {
                Err(err) => Err(err),
                Ok(()) => {
                    let tail: Vec<Instruction> = match op {
                        UnaryOp::Negate => vec![Instruction::Negate],
                        UnaryOp::Complement => vec![Instruction::Complement],
                        UnaryOp::Not => vec![Instruction::CompareZero, Instruction::ClearAx, Instruction::SetCondition(Condition::Equal)],
                    };
                    assert(tail@ =~= unary_tail(*op));
                    push_all(out, tail.as_slice());
                    assert(out@ =~= old(out)@ + (lower_exp(**x).unwrap() + unary_tail(*op)));
                    Ok(())
                },
            }
        },
        Exp::Binary(op, a, b) => {
            match op {
                BinaryOp::And | BinaryOp::Or => {
                    return Err(CodegenError::UnsupportedConstruct);
                },
                _ => {},
            }
            match lower_exp_into(a, out) {
                Err(err) => Err(err),
                Ok(()) => {
                    out.push(Instruction::PushAx);
                    match lower_exp_into(b, out) {
                        Err(err) => Err(err),
                        Ok(()) => {
                            out.push(Instruction::MoveAxToCx);
                            out.push(Instruction::PopAx);
                            lower_binary_tail(*op, out);
                            assert(out@ =~= old(out)@ + (lower_exp(**a).unwrap() + seq![Instruction::PushAx]
                                + lower_exp(**b).unwrap() + seq![Instruction::MoveAxToCx, Instruction::PopAx]
                                + binary_tail(*op).unwrap()));
                            Ok(())
                        },
                    }
                },
            }
        },
    }
}

/// Lowers the program to one labelled function, named as in the source.
pub fn generate(p: &Program) -> (r: Result<AssemblyUnit, CodegenError>)
    ensures
        generate_matches(*p, r),
{
    let mut body: Vec<Instruction> = vec![Instruction::PushFrame, Instruction::SetFrame];
    match &p.function.body {
        Statement::Return(e) => {
            match lower_exp_into(e, &mut body) {
                Err(err) => {
                    return Err(err);
                },
                Ok(()) => {},
            }
        },
    }
    body.push(Instruction::RestoreStack);
    body.push(Instruction::PopFrame);
    body.push(Instruction::Ret);
    proof {
        let Statement::Return(e) = p.function.body;
        assert(body@ =~= prologue() + lower_exp(e).unwrap() + epilogue());
    }
    let name = p.function.name.clone();
    let f = AsmFunction { name, instructions: body };
    let functions = vec![f];
    Ok(AssemblyUnit { functions })
}

} // verus!
