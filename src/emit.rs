use vstd::prelude::*;
use vstd::string::StringExecFns;

use crate::codegen::{AsmFunction, AssemblyUnit, Condition, Instruction};

verus! {

/// Relies on std's `String::push`: appends one character at the end.
#[verifier::external_body]
fn push_char(s: &mut String, c: char)
    ensures
        final(s)@ == old(s)@.push(c),
{
    s.push(c)
}

pub open spec fn digit_text(d: u32) -> Seq<char> {
    seq![(48 + d % 10) as char]
}

/// Decimal digits of `n`, without leading zeros.
pub open spec fn decimal(n: u32) -> Seq<char>
    decreases n,
{
    if n < 10 {
        digit_text(n)
    } else {
        decimal(n / 10) + digit_text(n % 10)
    }
}

pub open spec fn condition_suffix(c: Condition) -> Seq<char> {
    match c {
        Condition::Equal => "e"@,
        Condition::NotEqual => "ne"@,
        Condition::Less => "l"@,
        Condition::LessEqual => "le"@,
        Condition::Greater => "g"@,
        Condition::GreaterEqual => "ge"@,
    }
}

/// The AT&T-syntax line of one instruction.
pub open spec fn instruction_text(i: Instruction) -> Seq<char> {
    match i {
        Instruction::PushFrame => "\tpushq\t%rbp\n"@,
        Instruction::SetFrame => "\tmovq\t%rsp, %rbp\n"@,
        Instruction::RestoreStack => "\tmovq\t%rbp, %rsp\n"@,
        Instruction::PopFrame => "\tpopq\t%rbp\n"@,
        Instruction::Ret => "\tret\n"@,
        Instruction::LoadConstant(c) => "\tmovl\t$"@ + decimal(c) + ", %eax\n"@,
        Instruction::Negate => "\tnegl\t%eax\n"@,
        Instruction::Complement => "\tnotl\t%eax\n"@,
        Instruction::CompareZero => "\tcmpl\t$0, %eax\n"@,
        Instruction::ClearAx => "\tmovl\t$0, %eax\n"@,
        Instruction::SetCondition(c) => "\tset"@ + condition_suffix(c) + "\t%al\n"@,
        Instruction::PushAx => "\tpushq\t%rax\n"@,
        Instruction::MoveAxToCx => "\tmovl\t%eax, %ecx\n"@,
        Instruction::PopAx => "\tpopq\t%rax\n"@,
        Instruction::AddCx => "\taddl\t%ecx, %eax\n"@,
        Instruction::SubCx => "\tsubl\t%ecx, %eax\n"@,
        Instruction::MulCx => "\timull\t%ecx, %eax\n"@,
        Instruction::SignExtend => "\tcdq\n"@,
        Instruction::DivCx => "\tidivl\t%ecx\n"@,
        Instruction::MoveDxToAx => "\tmovl\t%edx, %eax\n"@,
        Instruction::CompareCx => "\tcmpl\t%ecx, %eax\n"@,
    }
}

pub open spec fn instructions_text(is: Seq<Instruction>) -> Seq<char>
    decreases is.len(),
{
    if is.len() == 0 {
        Seq::empty()
    } else {
        instructions_text(is.drop_last()) + instruction_text(is.last())
    }
}

pub open spec fn name_text(name: Seq<u8>) -> Seq<char> {
    name.map_values(|b: u8| b as char)
}

/// A function: exported, labelled with its name, then its instructions.
pub open spec fn function_text(f: AsmFunction) -> Seq<char> {
    "\t.globl\t"@ + name_text(f.name@) + "\n"@ + name_text(f.name@) + ":\n"@ + instructions_text(f.instructions@)
}

pub open spec fn functions_text(fs: Seq<AsmFunction>) -> Seq<char>
    decreases fs.len(),
{
    if fs.len() == 0 {
        Seq::empty()
    } else {
        functions_text(fs.drop_last()) + function_text(fs.last())
    }
}

/// The text of a unit: its functions, then the note that the stack is not executable.
pub open spec fn unit_text(u: AssemblyUnit) -> Seq<char> {
    functions_text(u.functions@) + "\t.section\t.note.GNU-stack,\"\",@progbits\n"@
}

fn append_decimal(out: &mut String, n: u32)
    ensures
        final(out)@ == old(out)@ + decimal(n),
    decreases n,
{
    if n >= 10 {
        append_decimal(out, n / 10);
    }
    let d: u32 = n % 10;
    push_char(out, (48 + d) as u8 as char);
    proof {
        assert(((48 + d) as u8 as char) == (48 + n % 10) as char);
    }
}

fn append_condition(out: &mut String, c: Condition)
    ensures
        final(out)@ == old(out)@ + condition_suffix(c),
{
    match c {
        Condition::Equal => out.append("e"),
        Condition::NotEqual => out.append("ne"),
        Condition::Less => out.append("l"),
        Condition::LessEqual => out.append("le"),
        Condition::Greater => out.append("g"),
        Condition::GreaterEqual => out.append("ge"),
    }
}

fn append_instruction(out: &mut String, i: Instruction)
    ensures
        final(out)@ == old(out)@ + instruction_text(i),
{
    match i {
        Instruction::PushFrame => out.append("\tpushq\t%rbp\n"),
        Instruction::SetFrame => out.append("\tmovq\t%rsp, %rbp\n"),
        Instruction::RestoreStack => out.append("\tmovq\t%rbp, %rsp\n"),
        Instruction::PopFrame => out.append("\tpopq\t%rbp\n"),
        Instruction::Ret => out.append("\tret\n"),
        Instruction::LoadConstant(c) => {
            out.append("\tmovl\t$");
            append_decimal(out, c);
            out.append(", %eax\n");
            assert(out@ =~= old(out)@ + instruction_text(i));
        },
        Instruction::Negate => out.append("\tnegl\t%eax\n"),
        Instruction::Complement => out.append("\tnotl\t%eax\n"),
        Instruction::CompareZero => out.append("\tcmpl\t$0, %eax\n"),
        Instruction::ClearAx => out.append("\tmovl\t$0, %eax\n"),
        Instruction::SetCondition(c) => {
            out.append("\tset");
            append_condition(out, c);
            out.append("\t%al\n");
            assert(out@ =~= old(out)@ + instruction_text(i));
        },
        Instruction::PushAx => out.append("\tpushq\t%rax\n"),
        Instruction::MoveAxToCx => out.append("\tmovl\t%eax, %ecx\n"),
        Instruction::PopAx => out.append("\tpopq\t%rax\n"),
        Instruction::AddCx => out.append("\taddl\t%ecx, %eax\n"),
        Instruction::SubCx => out.append("\tsubl\t%ecx, %eax\n"),
        Instruction::MulCx => out.append("\timull\t%ecx, %eax\n"),
        Instruction::SignExtend => out.append("\tcdq\n"),
        Instruction::DivCx => out.append("\tidivl\t%ecx\n"),
        Instruction::MoveDxToAx => out.append("\tmovl\t%edx, %eax\n"),
        Instruction::CompareCx => out.append("\tcmpl\t%ecx, %eax\n"),
    }
}

fn append_name(out: &mut String, name: &Vec<u8>)
    ensures
        final(out)@ == old(out)@ + name_text(name@),
{
    let mut i: usize = 0;
    while i < name.len()
        invariant
            0 <= i <= name@.len(),
            out@ == old(out)@ + name_text(name@.subrange(0, i as int)),
        decreases name@.len() - i,
    {
        push_char(out, name[i] as char);
        i = i + 1;
        assert(name_text(name@.subrange(0, i as int)) =~= name_text(name@.subrange(0, i - 1)).push(name@[i - 1] as char));
        assert(out@ =~= old(out)@ + name_text(name@.subrange(0, i as int)));
    }
    assert(name@.subrange(0, name@.len() as int) =~= name@);
}

fn append_function(out: &mut String, f: &AsmFunction)
    ensures
        final(out)@ == old(out)@ + function_text(*f),
{
    out.append("\t.globl\t");
    append_name(out, &f.name);
    out.append("\n");
    append_name(out, &f.name);
    out.append(":\n");
    let ghost head = out@;
    let mut i: usize = 0;
    while i < f.instructions.len()
        invariant
            0 <= i <= f.instructions@.len(),
            out@ == head + instructions_text(f.instructions@.subrange(0, i as int)),
        decreases f.instructions@.len() - i,
    {
        append_instruction(out, f.instructions[i]);
        i = i + 1;
        assert(f.instructions@.subrange(0, i as int).drop_last() =~= f.instructions@.subrange(0, i - 1));
        assert(out@ =~= head + instructions_text(f.instructions@.subrange(0, i as int)));
    }
    assert(f.instructions@.subrange(0, f.instructions@.len() as int) =~= f.instructions@);
    assert(out@ =~= old(out)@ + function_text(*f));
}

/// The assembly text of a unit, ready for the assembler.
pub fn emit(u: &AssemblyUnit) -> (r: String)
    ensures
        r@ == unit_text(*u),
{
    let mut out = String::new();
    let mut i: usize = 0;
    while i < u.functions.len()
        invariant
            0 <= i <= u.functions@.len(),
            out@ == functions_text(u.functions@.subrange(0, i as int)),
        decreases u.functions@.len() - i,
    {
        append_function(&mut out, &u.functions[i]);
        i = i + 1;
        assert(u.functions@.subrange(0, i as int).drop_last() =~= u.functions@.subrange(0, i - 1));
        assert(out@ =~= functions_text(u.functions@.subrange(0, i as int)));
    }
    assert(u.functions@.subrange(0, u.functions@.len() as int) =~= u.functions@);
    out.append("\t.section\t.note.GNU-stack,\"\",@progbits\n");
    out
}

} // verus!
