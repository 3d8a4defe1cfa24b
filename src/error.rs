use vstd::prelude::*;

verus! {

/// What went wrong at a source line.
#[derive(Clone, Debug, PartialEq)]
pub enum ErrorKind {
    /// No scope in the chain binds the name.
    UndefinedVariable(String),
    /// A unary operator needs a number.
    OperandMustBeNumber,
    /// A binary operator needs two numbers.
    OperandsMustBeNumbers,
    /// `+` needs two numbers or two strings; also any unknown binary operator.
    OperandsMustBeNumbersOrStrings,
    /// The exact result of an arithmetic operation does not fit in an `i64`.
    NumberOutOfRange,
    /// Division by zero.
    DivisionByZero,
    /// The exact quotient of a division is not an integer.
    InexactDivision,
}

/// A failure of a language operation, with the line of the token that caused it.
#[derive(Clone, Debug, PartialEq)]
pub struct RuntimeError {
    pub line: usize,
    pub kind: ErrorKind,
}

/// Every way that evaluation or execution can fail.
#[derive(Clone, Debug, PartialEq)]
pub enum LoxError {
    /// A runtime error of the program being run.
    RunTime(RuntimeError),
    /// An expression that must yield a value yielded none.
    MissingValue,
    /// The execution budget (nesting depth and loop iterations) ran out.
    BudgetExhausted,
}

pub type LoxResult<T> = Result<T, LoxError>;

/// The error for an operation at `line` that failed with `kind`.
pub open spec fn runtime(line: usize, kind: ErrorKind) -> LoxError {
    LoxError::RunTime(RuntimeError { line, kind })
}

} // verus!
