use vstd::prelude::*;

use crate::token::Token;
use crate::value::Value;

verus! {

/// A literal: its value, possibly absent.
#[derive(Debug)]
pub struct Literal {
    pub value: Option<Value>,
}

/// A parenthesised expression.
#[derive(Debug)]
pub struct Grouping {
    pub expression: Box<Expr>,
}

/// `!right` or `-right`.
#[derive(Debug)]
pub struct Unary {
    pub operator: Token,
    pub right: Box<Expr>,
}

/// `left operator right` for an arithmetic, comparison or equality operator.
#[derive(Debug)]
pub struct Binary {
    pub left: Box<Expr>,
    pub operator: Token,
    pub right: Box<Expr>,
}

/// `left and right` or `left or right`.
#[derive(Debug)]
pub struct Logical {
    pub left: Box<Expr>,
    pub operator: Token,
    pub right: Box<Expr>,
}

/// A read of a variable.
#[derive(Debug)]
pub struct Variable {
    pub name: Token,
}

/// `name = value`.
#[derive(Debug)]
pub struct Assign {
    pub name: Token,
    pub value: Box<Expr>,
}

#[derive(Debug)]
pub enum Expr {
    Literal(Literal),
    Grouping(Grouping),
    Unary(Unary),
    Binary(Binary),
    Logical(Logical),
    Variable(Variable),
    Assign(Assign),
}

/// `expression;`
#[derive(Debug)]
pub struct ExpressionStmt {
    pub expression: Expr,
}

/// `print expression;`
#[derive(Debug)]
pub struct PrintStmt {
    pub expression: Expr,
}

/// `var name;` or `var name = initializer;`
#[derive(Debug)]
pub struct VarStmt {
    pub name: Token,
    pub initializer: Option<Expr>,
}

/// `{ statements }`
#[derive(Debug)]
pub struct BlockStmt {
    pub statements: Vec<Stmt>,
}

/// `if (condition) then_branch else else_branch`
#[derive(Debug)]
pub struct IfStmt {
    pub condition: Expr,
    pub then_branch: Box<Stmt>,
    pub else_branch: Option<Box<Stmt>>,
}

/// `while (condition) body`
#[derive(Debug)]
pub struct WhileStmt {
    pub condition: Expr,
    pub body: Box<Stmt>,
}

#[derive(Debug)]
pub enum Stmt {
    Expression(ExpressionStmt),
    Print(PrintStmt),
    Var(VarStmt),
    Block(BlockStmt),
    If(IfStmt),
    While(WhileStmt),
}

} // verus!
