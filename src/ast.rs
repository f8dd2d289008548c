use vstd::prelude::*;

verus! {

#[derive(Clone, Copy, Debug, PartialEq, Eq, Structural)]
pub enum UnaryOp {
    Negate,
    Complement,
    Not,
}

#[derive(Clone, Copy, Debug, PartialEq, Eq, Structural)]
pub enum BinaryOp {
    Add,
    Subtract,
    Multiply,
    Divide,
    Remainder,
    Less,
    LessEqual,
    Greater,
    GreaterEqual,
    Equal,
    NotEqual,
    And,
    Or,
}

/// An expression; an integer constant holds its value, saturated at `u64::MAX`.
#[derive(Debug, PartialEq, Eq)]
pub enum Exp {
    Constant(u64),
    Unary(UnaryOp, Box<Exp>),
    Binary(BinaryOp, Box<Exp>, Box<Exp>),
}

#[derive(Debug, PartialEq, Eq)]
pub enum Statement {
    Return(Exp),
}

#[derive(Debug, PartialEq, Eq)]
pub struct FunctionDef {
    pub name: Vec<u8>,
    pub body: Statement,
}

/// The root of the tree: one function definition.
#[derive(Debug, PartialEq, Eq)]
pub struct Program {
    pub function: FunctionDef,
}

} // verus!
