use vstd::prelude::*;

use crate::ast::{
    Assign, Binary, BlockStmt, Expr, ExpressionStmt, Grouping, IfStmt, Literal, Logical, PrintStmt,
    Stmt, Unary, VarStmt, Variable, WhileStmt,
};
use crate::environment::{assigned, defined, lookup, Environment, Frames};
use crate::error::{runtime, ErrorKind, LoxError, LoxResult, RuntimeError};
use crate::token::{Token, TokenType};
use crate::value::{
    duplicate_result, is_equal, is_truthy, model, result_model, results_equal, truthy, Val, Value,
};

verus! {

/// A number result: the exact value `x`, or an out-of-range error when `x` does not fit.
pub open spec fn number_result(line: usize, x: int) -> LoxResult<Option<Val>> {
    if i64::MIN <= x <= i64::MAX {
        Ok(Some(Val::Number(x as i64)))
    } else {
        Err(runtime(line, ErrorKind::NumberOutOfRange))
    }
}

/// What a unary operator yields on an operand.
pub open spec fn unary_result(op: Token, right: Option<Val>) -> LoxResult<Option<Val>> {
    match right {
        None => Err(LoxError::MissingValue),
        Some(v) => match op.type_ {
            TokenType::Bang => Ok(Some(Val::Boolean(!truthy(v)))),
            TokenType::Minus => match v {
                Val::Number(n) => number_result(op.line, -(n as int)),
                _ => Err(runtime(op.line, ErrorKind::OperandMustBeNumber)),
            },
            _ => Ok(None),
        },
    }
}

/// What an operator that needs two numbers yields on `x` and `y`.
pub open spec fn numeric_result(op: Token, x: i64, y: i64) -> LoxResult<Option<Val>> {
    match op.type_ {
        TokenType::Plus => number_result(op.line, x + y),
        TokenType::Minus => number_result(op.line, x - y),
        TokenType::Star => number_result(op.line, x * y),
        TokenType::Slash => if y == 0 {
            Err(runtime(op.line, ErrorKind::DivisionByZero))
        } else if x % y != 0 {
            Err(runtime(op.line, ErrorKind::InexactDivision))
        } else {
            number_result(op.line, x / y)
        },
        TokenType::Greater => Ok(Some(Val::Boolean(x > y))),
        TokenType::GreaterEqual => Ok(Some(Val::Boolean(x >= y))),
        TokenType::Less => Ok(Some(Val::Boolean(x < y))),
        TokenType::LessEqual => Ok(Some(Val::Boolean(x <= y))),
        _ => Err(runtime(op.line, ErrorKind::OperandsMustBeNumbersOrStrings)),
    }
}

/// What a binary operator other than `==` and `!=` yields on two present values.
pub open spec fn operate(op: Token, a: Val, b: Val) -> LoxResult<Option<Val>> {
    match op.type_ {
        TokenType::Plus => match (a, b) {
            (Val::Number(x), Val::Number(y)) => numeric_result(op, x, y),
            (Val::Text(s), Val::Text(t)) => Ok(Some(Val::Text(s + t))),
            _ => Err(runtime(op.line, ErrorKind::OperandsMustBeNumbersOrStrings)),
        },
        TokenType::Minus | TokenType::Star | TokenType::Slash | TokenType::Greater
        | TokenType::GreaterEqual | TokenType::Less | TokenType::LessEqual => match (a, b) {
            (Val::Number(x), Val::Number(y)) => numeric_result(op, x, y),
            _ => Err(runtime(op.line, ErrorKind::OperandsMustBeNumbers)),
        },
        _ => Err(runtime(op.line, ErrorKind::OperandsMustBeNumbersOrStrings)),
    }
}

/// What a binary operator yields on two operands, each possibly absent.
pub open spec fn binary_result(op: Token, l: Option<Val>, r: Option<Val>) -> LoxResult<Option<Val>> {
    match op.type_ {
        TokenType::EqualEqual => Ok(Some(Val::Boolean(results_equal(l, r)))),
        TokenType::BangEqual => Ok(Some(Val::Boolean(!results_equal(l, r)))),
        _ => match (l, r) {
            (Some(a), Some(b)) => operate(op, a, b),
            _ => Err(LoxError::MissingValue),
        },
    }
}

/// Whether a logical operator returns its left operand without evaluating the right:
/// `or` on a truthy left operand, `and` on a falsy one.
pub open spec fn short_circuits(op: TokenType, left: Option<Val>) -> bool {
    match left {
        Some(v) => (op == TokenType::Or && truthy(v)) || (op == TokenType::And && !truthy(v)),
        None => false,
    }
}

/// The error for a name that no scope binds.
pub open spec fn undefined(name: Token) -> LoxError {
    runtime(name.line, ErrorKind::UndefinedVariable(name.lexeme))
}

/// Evaluating `e` in `frames`: the frames afterwards and the result.
/// Operands are evaluated left to right; the first failure ends the evaluation.
pub open spec fn eval(frames: Frames, e: Expr) -> (Frames, LoxResult<Option<Val>>)
    decreases e,
{
    match e {
        Expr::Literal(l) => (frames, Ok(model(l.value))),
        Expr::Grouping(g) => eval(frames, *g.expression),
        Expr::Variable(v) => (
            frames,
            match lookup(frames, v.name.lexeme@) {
                Some(x) => Ok(x),
                None => Err(undefined(v.name)),
            },
        ),
        Expr::Assign(a) => {
            let (f1, r) = eval(frames, *a.value);
            match r {
                Err(err) => (f1, Err(err)),
                Ok(v) => match assigned(f1, a.name.lexeme@, v) {
                    Some(f2) => (f2, Ok(v)),
                    None => (f1, Err(undefined(a.name))),
                },
            }
        },
        Expr::Unary(u) => {
            let (f1, r) = eval(frames, *u.right);
            match r {
                Err(err) => (f1, Err(err)),
                Ok(v) => (f1, unary_result(u.operator, v)),
            }
        },
        Expr::Binary(b) => {
            let (f1, r1) = eval(frames, *b.left);
            match r1 {
                Err(err) => (f1, Err(err)),
                Ok(l) => {
                    let (f2, r2) = eval(f1, *b.right);
                    match r2 {
                        Err(err) => (f2, Err(err)),
                        Ok(r) => (f2, binary_result(b.operator, l, r)),
                    }
                },
            }
        },
        Expr::Logical(g) => {
            let (f1, r1) = eval(frames, *g.left);
            match r1 {
                Err(err) => (f1, Err(err)),
                Ok(l) => if short_circuits(g.operator.type_, l) {
                    (f1, Ok(l))
                } else {
                    eval(f1, *g.right)
                },
            }
        },
    }
}


/// `st` with its scopes replaced by `f`.
pub open spec fn with_frames(st: State, f: Frames) -> State {
    State { frames: f, output: st.output, shown: st.shown }
}

/// Executing `s` from `st`: the state afterwards and the outcome. `repl` says
/// whether expression statements surface their value. `fuel` bounds the depth of
/// nested statements and the number of loop iterations; running out of it fails.
pub open spec fn exec(st: State, s: Stmt, repl: bool, fuel: nat) -> (State, LoxResult<()>)
    decreases fuel, 0nat,
{
    if fuel == 0 {
        (st, Err(LoxError::BudgetExhausted))
    } else {
        match s {
            Stmt::Expression(x) => {
                let (f, r) = eval(st.frames, x.expression);
                match r {
                    Ok(v) => (
                        State { frames: f, output: st.output, shown: if repl { v } else { st.shown } },
                        Ok(()),
                    ),
                    Err(err) => (with_frames(st, f), Err(err)),
                }
            },
            Stmt::Print(p) => {
                let (f, r) = eval(st.frames, p.expression);
                match r {
                    Ok(Some(v)) => (
                        State { frames: f, output: st.output.push(v), shown: st.shown },
                        Ok(()),
                    ),
                    Ok(None) => (with_frames(st, f), Err(LoxError::MissingValue)),
                    Err(err) => (with_frames(st, f), Err(err)),
                }
            },
            Stmt::Var(v) => match v.initializer {
                None => (with_frames(st, defined(st.frames, v.name.lexeme@, None)), Ok(())),
                Some(init) => {
                    let (f, r) = eval(st.frames, init);
                    match r {
                        Ok(x) => (with_frames(st, defined(f, v.name.lexeme@, x)), Ok(())),
                        Err(err) => (with_frames(st, f), Err(err)),
                    }
                },
            },
            Stmt::Block(b) => {
                let (st2, r) = exec_list(
                    with_frames(st, st.frames.push(Map::empty())),
                    b.statements@,
                    0,
                    repl,
                    (fuel - 1) as nat,
                );
                (with_frames(st2, st2.frames.drop_last()), r)
            },
            Stmt::If(i) => {
                let (f, r) = eval(st.frames, i.condition);
                let st1 = with_frames(st, f);
                match r {
                    Err(err) => (st1, Err(err)),
                    Ok(None) => (st1, Err(LoxError::MissingValue)),
                    Ok(Some(c)) => if truthy(c) {
                        exec(st1, *i.then_branch, repl, (fuel - 1) as nat)
                    } else {
                        match i.else_branch {
                            Some(e) => exec(st1, *e, repl, (fuel - 1) as nat),
                            None => (st1, Ok(())),
                        }
                    },
                }
            },
            Stmt::While(w) => exec_while(st, w.condition, *w.body, repl, (fuel - 1) as nat),
        }
    }
}

/// Executing `stmts` from index `i` on, in order, up to the first failure.
pub open spec fn exec_list(st: State, stmts: Seq<Stmt>, i: int, repl: bool, fuel: nat) -> (
    State,
    LoxResult<()>,
)
    decreases fuel, stmts.len() - i,
{
    if i < 0 || i >= stmts.len() {
        (st, Ok(()))
    } else {
        let (st1, r) = exec(st, stmts[i], repl, fuel);
        match r {
            Err(err) => (st1, Err(err)),
            Ok(()) => exec_list(st1, stmts, i + 1, repl, fuel),
        }
    }
}

/// Running a `while` loop: each iteration spends one unit of `fuel`, evaluates
/// the condition, and runs the body while the condition is truthy.
pub open spec fn exec_while(st: State, cond: Expr, body: Stmt, repl: bool, fuel: nat) -> (
    State,
    LoxResult<()>,
)
    decreases fuel, 1nat,
{
    if fuel == 0 {
        (st, Err(LoxError::BudgetExhausted))
    } else {
        let (f, r) = eval(st.frames, cond);
        let st1 = with_frames(st, f);
        match r {
            Err(err) => (st1, Err(err)),
            Ok(None) => (st1, Err(LoxError::MissingValue)),
            Ok(Some(c)) => if !truthy(c) {
                (st1, Ok(()))
            } else {
                let (st2, r2) = exec(st1, body, repl, fuel);
                match r2 {
                    Err(err) => (st2, Err(err)),
                    Ok(()) => exec_while(st2, cond, body, repl, (fuel - 1) as nat),
                }
            },
        }
    }
}

impl Default for Intrepreter {
    /// An interactive-mode interpreter: one empty global scope, expression values surfaced.
    fn default() -> (r: Self)
        ensures
            r.wf(),
            r@ == (State {
                frames: seq![Map::<Seq<char>, Option<Val>>::empty()],
                output: Seq::empty(),
                shown: None,
            }),
            r.spec_repl(),
            r.spec_budget() == u64::MAX,
    {
        Intrepreter::new(Environment::new(), true)
    }
}

/// `or` with a truthy left operand yields that operand without evaluating the
/// right one: the scopes and the result are those of the left operand alone,
/// whatever the right operand is.
pub proof fn lemma_or_short_circuits(frames: Frames, g: Logical)
    requires
        g.operator.type_ == TokenType::Or,
        eval(frames, *g.left).1 matches Ok(Some(v)) && truthy(v),
    ensures
        eval(frames, Expr::Logical(g)) == eval(frames, *g.left),
{
}

/// `and` with a falsy left operand yields that operand without evaluating the
/// right one.
pub proof fn lemma_and_short_circuits(frames: Frames, g: Logical)
    requires
        g.operator.type_ == TokenType::And,
        eval(frames, *g.left).1 matches Ok(Some(v)) && !truthy(v),
    ensures
        eval(frames, Expr::Logical(g)) == eval(frames, *g.left),
{
}

fn check_number_and_operand(operator: &Token, operand: &Value) -> (r: LoxResult<()>)
    ensures
        r is Ok <==> operand is Number,
        r is Err ==> r == Err::<(), LoxError>(runtime(operator.line, ErrorKind::OperandMustBeNumber)),
{
    match operand {
        Value::Number(_) => Ok(()),
        _ => Err(
            LoxError::RunTime(RuntimeError { line: operator.line, kind: ErrorKind::OperandMustBeNumber }),
        ),
    }
}

fn check_number_operands(operator: &Token, left: &Value, right: &Value) -> (r: LoxResult<()>)
    ensures
        r is Ok <==> (left is Number && right is Number),
        r is Err ==> r == Err::<(), LoxError>(
            runtime(operator.line, ErrorKind::OperandsMustBeNumbers),
        ),
{
    match (left, right) {
        (Value::Number(_), Value::Number(_)) => Ok(()),
        _ => Err(
            LoxError::RunTime(RuntimeError { line: operator.line, kind: ErrorKind::OperandsMustBeNumbers }),
        ),
    }
}

fn out_of_range(operator: &Token) -> (r: LoxError)
    ensures
        r == runtime(operator.line, ErrorKind::NumberOutOfRange),
{
    LoxError::RunTime(RuntimeError { line: operator.line, kind: ErrorKind::NumberOutOfRange })
}

/// Applies an operator that needs two numbers.
fn numeric(operator: &Token, x: i64, y: i64) -> (r: LoxResult<Option<Value>>)
    ensures
        result_model(r) == numeric_result(*operator, x, y),
{
    let line = operator.line;
    match operator.type_ {
        TokenType::Plus => match x.checked_add(y) {
            Some(n) => Ok(Some(Value::Number(n))),
            None => Err(out_of_range(operator)),
        },
        TokenType::Minus => match x.checked_sub(y) {
            Some(n) => Ok(Some(Value::Number(n))),
            None => Err(out_of_range(operator)),
        },
        TokenType::Star => match x.checked_mul(y) {
            Some(n) => Ok(Some(Value::Number(n))),
            None => Err(out_of_range(operator)),
        },
        TokenType::Slash => {
            if y == 0 {
                Err(LoxError::RunTime(RuntimeError { line, kind: ErrorKind::DivisionByZero }))
            } else {
                match x.checked_rem_euclid(y) {
                    None => {
                        assert(x == i64::MIN && y == -1);
                        assert(x % y == 0 && x / y == 0x8000_0000_0000_0000) by (nonlinear_arith)
                            requires
                                x == i64::MIN,
                                y == -1,
                        ;
                        Err(out_of_range(operator))
                    },
                    Some(m) => {
                        if m != 0 {
                            Err(LoxError::RunTime(RuntimeError { line, kind: ErrorKind::InexactDivision }))
                        } else {
                            match x.checked_div_euclid(y) {
                                Some(n) => Ok(Some(Value::Number(n))),
                                None => Err(out_of_range(operator)),
                            }
                        }
                    },
                }
            }
        },
        TokenType::Greater => Ok(Some(Value::Boolean(x > y))),
        TokenType::GreaterEqual => Ok(Some(Value::Boolean(x >= y))),
        TokenType::Less => Ok(Some(Value::Boolean(x < y))),
        TokenType::LessEqual => Ok(Some(Value::Boolean(x <= y))),
        _ => Err(
            LoxError::RunTime(RuntimeError { line, kind: ErrorKind::OperandsMustBeNumbersOrStrings }),
        ),
    }
}

/// Applies a binary operator other than `==` and `!=` to two present values.
fn apply_binary(operator: &Token, left: Value, right: Value) -> (r: LoxResult<Option<Value>>)
    ensures
        result_model(r) == operate(*operator, left@, right@),
{
    match operator.type_ {
        TokenType::Plus => match (left, right) {
            (Value::Number(x), Value::Number(y)) => numeric(operator, x, y),
            (Value::String(s), Value::String(t)) => Ok(Some(Value::String(s.concat(t.as_str())))),
            _ => Err(
                LoxError::RunTime(
                    RuntimeError { line: operator.line, kind: ErrorKind::OperandsMustBeNumbersOrStrings },
                ),
            ),
        },
        TokenType::Minus | TokenType::Star | TokenType::Slash | TokenType::Greater
        | TokenType::GreaterEqual | TokenType::Less | TokenType::LessEqual => {
            match check_number_operands(operator, &left, &right) {
                Err(e) => Err(e),
                Ok(()) => match (left, right) {
                    (Value::Number(x), Value::Number(y)) => numeric(operator, x, y),
                    _ => Err(LoxError::MissingValue),
                },
            }
        },
        _ => Err(
            LoxError::RunTime(
                RuntimeError { line: operator.line, kind: ErrorKind::OperandsMustBeNumbersOrStrings },
            ),
        ),
    }
}

/// What the interpreter has done so far: its scopes, the values printed, in order,
/// and the value that the last expression statement surfaced in interactive mode.
pub struct State {
    pub frames: Frames,
    pub output: Seq<Val>,
    pub shown: Option<Val>,
}

/// A tree-walking interpreter: it executes statements in a chain of scopes and
/// collects what `print` emits.
pub struct Intrepreter {
    environment: Environment,
    repl: bool,
    output: Vec<Value>,
    shown: Option<Value>,
    budget: u64,
}

impl View for Intrepreter {
    type V = State;

    closed spec fn view(&self) -> State {
        State {
            frames: self.environment@,
            output: self.output@.map_values(|v: Value| v@),
            shown: model(self.shown),
        }
    }
}

impl Intrepreter {
    pub closed spec fn wf(&self) -> bool {
        self.environment.wf()
    }

    /// Whether expression statements surface their value (interactive mode).
    pub closed spec fn spec_repl(&self) -> bool {
        self.repl
    }

    /// The budget that each top-level statement runs with.
    pub closed spec fn spec_budget(&self) -> u64 {
        self.budget
    }

    /// An interpreter over `environment`, with nothing printed yet and the
    /// largest budget.
    pub fn new(environment: Environment, repl: bool) -> (r: Self)
        requires
            environment.wf(),
        ensures
            r.wf(),
            r@ == (State { frames: environment@, output: Seq::empty(), shown: None }),
            r.spec_repl() == repl,
            r.spec_budget() == u64::MAX,
    {
        let r = Intrepreter { environment, repl, output: Vec::new(), shown: None, budget: u64::MAX };
        assert(r@.output =~= Seq::<Val>::empty());
        r
    }

    /// A script-mode interpreter: one empty global scope, expression values discarded.
    pub fn without_repl() -> (r: Self)
        ensures
            r.wf(),
            r@ == (State {
                frames: seq![Map::<Seq<char>, Option<Val>>::empty()],
                output: Seq::empty(),
                shown: None,
            }),
            !r.spec_repl(),
            r.spec_budget() == u64::MAX,
    {
        Intrepreter::new(Environment::new(), false)
    }

    /// Executes `statements` in order, each with the interpreter's budget,
    /// stopping at the first failure, which is returned.
    pub fn intrepret(&mut self, statements: &[Stmt]) -> (r: LoxResult<()>)
        requires
            old(self).wf(),
        ensures
            old(self).executes(
                *final(self),
                exec_list(
                    old(self)@,
                    statements@,
                    0,
                    old(self).spec_repl(),
                    old(self).spec_budget() as nat,
                ),
                r,
            ),
    {
        let budget = self.budget;
        self.execute_all(statements, budget)
    }

    /// Sets the budget that each top-level statement runs with.
    pub fn set_budget(&mut self, budget: u64)
        ensures
            final(self)@ == old(self)@,
            final(self).wf() == old(self).wf(),
            final(self).spec_repl() == old(self).spec_repl(),
            final(self).spec_budget() == budget,
    {
        self.budget = budget;
    }

    /// The values printed so far, in order.
    pub fn output(&self) -> (r: &Vec<Value>)
        ensures
            r@.map_values(|v: Value| v@) == self@.output,
    {
        &self.output
    }

    /// Hands out the values printed so far and forgets them.
    pub fn take_output(&mut self) -> (r: Vec<Value>)
        ensures
            r@.map_values(|v: Value| v@) == old(self)@.output,
            final(self)@ == (State { output: Seq::empty(), ..old(self)@ }),
            final(self).wf() == old(self).wf(),
            final(self).spec_repl() == old(self).spec_repl(),
            final(self).spec_budget() == old(self).spec_budget(),
    {
        let mut r: Vec<Value> = Vec::new();
        std::mem::swap(&mut self.output, &mut r);
        assert(self@.output =~= Seq::<Val>::empty());
        r
    }

    /// The value that the last expression statement surfaced in interactive mode.
    pub fn shown(&self) -> (r: Option<Value>)
        ensures
            model(r) == self@.shown,
    {
        duplicate_result(&self.shown)
    }

    /// The chain of scopes.
    pub fn environment(&self) -> (r: &Environment)
        ensures
            r@ == self@.frames,
    {
        &self.environment
    }

    /// `post` is this interpreter after evaluating `e` to `r`: only the scopes
    /// changed, as `eval` says, and the chain kept its depth.
    pub open spec fn evaluates(self, post: Self, e: Expr, r: LoxResult<Option<Value>>) -> bool {
        &&& post.wf()
        &&& (post@.frames, result_model(r)) == eval(self@.frames, e)
        &&& post@.frames.len() == self@.frames.len()
        &&& post@.output == self@.output
        &&& post@.shown == self@.shown
        &&& post.spec_repl() == self.spec_repl()
        &&& post.spec_budget() == self.spec_budget()
    }

    pub fn evaluate(&mut self, expr: &Expr) -> (r: LoxResult<Option<Value>>)
        requires
            old(self).wf(),
        ensures
            old(self).evaluates(*final(self), *expr, r),
        decreases expr,
    {
        match expr {
            Expr::Literal(l) => self.visit_literal_expr(l),
            Expr::Grouping(g) => self.visit_grouping_expr(g),
            Expr::Unary(u) => self.visit_unary_expr(u),
            Expr::Binary(b) => self.visit_binary_exp(b),
            Expr::Logical(g) => self.visit_logical_expr(g),
            Expr::Variable(v) => self.visit_variable_expr(v),
            Expr::Assign(a) => self.visit_assign_expr(a),
        }
    }

    pub fn visit_literal_expr(&mut self, expr: &Literal) -> (r: LoxResult<Option<Value>>)
        requires
            old(self).wf(),
        ensures
            old(self).evaluates(*final(self), Expr::Literal(*expr), r),
        decreases expr,
    {
        Ok(duplicate_result(&expr.value))
    }

    pub fn visit_grouping_expr(&mut self, expr: &Grouping) -> (r: LoxResult<Option<Value>>)
        requires
            old(self).wf(),
        ensures
            old(self).evaluates(*final(self), Expr::Grouping(*expr), r),
        decreases expr,
    {
        self.evaluate(&expr.expression)
    }

    pub fn visit_variable_expr(&mut self, expr: &Variable) -> (r: LoxResult<Option<Value>>)
        requires
            old(self).wf(),
        ensures
            old(self).evaluates(*final(self), Expr::Variable(*expr), r),
        decreases expr,
    {
        self.environment.get(expr.name.duplicate())
    }

    pub fn visit_assign_expr(&mut self, expr: &Assign) -> (r: LoxResult<Option<Value>>)
        requires
            old(self).wf(),
        ensures
            old(self).evaluates(*final(self), Expr::Assign(*expr), r),
        decreases expr,
    {
        let value = match self.evaluate(&expr.value) {
            Ok(v) => v,
            Err(e) => return Err(e),
        };
        match self.environment.assign(expr.name.duplicate(), duplicate_result(&value)) {
            Ok(()) => Ok(value),
            Err(e) => Err(e),
        }
    }

    pub fn visit_unary_expr(&mut self, expr: &Unary) -> (r: LoxResult<Option<Value>>)
        requires
            old(self).wf(),
        ensures
            old(self).evaluates(*final(self), Expr::Unary(*expr), r),
        decreases expr,
    {
        let right = match self.evaluate(&expr.right) {
            Ok(Some(v)) => v,
            Ok(None) => return Err(LoxError::MissingValue),
            Err(e) => return Err(e),
        };
        match expr.operator.type_ {
            TokenType::Bang => Ok(Some(Value::Boolean(!is_truthy(&right)))),
            TokenType::Minus => match check_number_and_operand(&expr.operator, &right) {
                Err(e) => Err(e),
                Ok(()) => match right {
                    Value::Number(n) => if n == i64::MIN {
                        Err(out_of_range(&expr.operator))
                    } else {
                        Ok(Some(Value::Number(-n)))
                    },
                    _ => Err(LoxError::MissingValue),
                },
            },
            _ => Ok(None),
        }
    }

    pub fn visit_binary_exp(&mut self, expr: &Binary) -> (r: LoxResult<Option<Value>>)
        requires
            old(self).wf(),
        ensures
            old(self).evaluates(*final(self), Expr::Binary(*expr), r),
        decreases expr,
    {
        let left = match self.evaluate(&expr.left) {
            Ok(v) => v,
            Err(e) => return Err(e),
        };
        let right = match self.evaluate(&expr.right) {
            Ok(v) => v,
            Err(e) => return Err(e),
        };
        match expr.operator.type_ {
            TokenType::EqualEqual => Ok(Some(Value::Boolean(is_equal(&left, &right)))),
            TokenType::BangEqual => Ok(Some(Value::Boolean(!is_equal(&left, &right)))),
            _ => match (left, right) {
                (Some(l), Some(r)) => apply_binary(&expr.operator, l, r),
                _ => Err(LoxError::MissingValue),
            },
        }
    }

    pub fn visit_logical_expr(&mut self, expr: &Logical) -> (r: LoxResult<Option<Value>>)
        requires
            old(self).wf(),
        ensures
            old(self).evaluates(*final(self), Expr::Logical(*expr), r),
        decreases expr,
    {
        let left = match self.evaluate(&expr.left) {
            Ok(v) => v,
            Err(e) => return Err(e),
        };
        if let Some(l) = &left {
            let t = is_truthy(l);
            let op = expr.operator.type_;
            if (op == TokenType::Or && t) || (op == TokenType::And && !t) {
                return Ok(left);
            }
        }
        self.evaluate(&expr.right)
    }
    /// `post` is this interpreter after a run whose state and outcome are `outcome`:
    /// the run gave `r`, and the chain of scopes kept its depth.
    pub open spec fn executes(self, post: Self, outcome: (State, LoxResult<()>), r: LoxResult<()>) -> bool {
        &&& post.wf()
        &&& (post@, r) == outcome
        &&& post@.frames.len() == self@.frames.len()
        &&& post.spec_repl() == self.spec_repl()
        &&& post.spec_budget() == self.spec_budget()
    }

    /// Executes one statement with `fuel` for its nesting and loops.
    pub fn execute(&mut self, stmt: &Stmt, fuel: u64) -> (r: LoxResult<()>)
        requires
            old(self).wf(),
        ensures
            old(self).executes(*final(self), exec(old(self)@, *stmt, old(self).spec_repl(), fuel as nat), r),
        decreases fuel, 3nat,
    {
        if fuel == 0 {
            return Err(LoxError::BudgetExhausted);
        }
        match stmt {
            Stmt::Expression(x) => self.visit_expression_stmt(x, fuel),
            Stmt::Print(p) => self.visit_print_stmt(p, fuel),
            Stmt::Var(v) => self.visit_var_stmt(v, fuel),
            Stmt::Block(b) => self.visit_block_stmt(b, fuel),
            Stmt::If(i) => self.visit_if_stmt(i, fuel),
            Stmt::While(w) => self.visit_while_stmt(w, fuel),
        }
    }

    /// Executes `statements` in order in the current scope, up to the first failure.
    fn execute_all(&mut self, statements: &[Stmt], fuel: u64) -> (r: LoxResult<()>)
        requires
            old(self).wf(),
        ensures
            old(self).executes(
                *final(self),
                exec_list(old(self)@, statements@, 0, old(self).spec_repl(), fuel as nat),
                r,
            ),
        decreases fuel, 4nat,
    {
        let ghost start = self@;
        let ghost depth = self@.frames.len();
        let ghost repl = self.repl;
        let ghost budget = self.budget;
        let mut i: usize = 0;
        while i < statements.len()
            invariant
                start == old(self)@,
                repl == old(self).spec_repl(),
                depth == old(self)@.frames.len(),
                budget == old(self).spec_budget(),
                i <= statements@.len(),
                self.wf(),
                self@.frames.len() == depth,
                self.repl == repl,
                self.budget == budget,
                exec_list(self@, statements@, i as int, repl, fuel as nat) == exec_list(
                    start,
                    statements@,
                    0,
                    repl,
                    fuel as nat,
                ),
            decreases statements@.len() - i,
        {
            match self.execute(&statements[i], fuel) {
                Err(e) => return Err(e),
                Ok(()) => {},
            }
            i = i + 1;
        }
        Ok(())
    }

    /// Executes `statements` in a new innermost scope, which is left afterwards,
    /// whether they succeed or fail.
    pub fn execute_block(&mut self, statements: &[Stmt], fuel: u64) -> (r: LoxResult<()>)
        requires
            old(self).wf(),
        ensures
            old(self).executes(
                *final(self),
                ({
                    let (st2, r2) = exec_list(
                        with_frames(old(self)@, old(self)@.frames.push(Map::empty())),
                        statements@,
                        0,
                        old(self).spec_repl(),
                        fuel as nat,
                    );
                    (with_frames(st2, st2.frames.drop_last()), r2)
                }),
                r,
            ),
        decreases fuel, 5nat,
    {
        proof {
            self.environment.lemma_wf_nonempty();
        }
        self.environment.push_scope();
        let r = self.execute_all(statements, fuel);
        self.environment.pop_scope();
        r
    }

    pub fn visit_expression_stmt(&mut self, stmt: &ExpressionStmt, fuel: u64) -> (r: LoxResult<()>)
        requires
            old(self).wf(),
            fuel > 0,
        ensures
            old(self).executes(
                *final(self),
                exec(old(self)@, Stmt::Expression(*stmt), old(self).spec_repl(), fuel as nat),
                r,
            ),
        decreases fuel, 2nat,
    {
        match self.evaluate(&stmt.expression) {
            Err(e) => Err(e),
            Ok(v) => {
                if self.repl {
                    self.shown = v;
                }
                Ok(())
            },
        }
    }

    pub fn visit_print_stmt(&mut self, stmt: &PrintStmt, fuel: u64) -> (r: LoxResult<()>)
        requires
            old(self).wf(),
            fuel > 0,
        ensures
            old(self).executes(
                *final(self),
                exec(old(self)@, Stmt::Print(*stmt), old(self).spec_repl(), fuel as nat),
                r,
            ),
        decreases fuel, 2nat,
    {
        match self.evaluate(&stmt.expression) {
            Err(e) => Err(e),
            Ok(None) => Err(LoxError::MissingValue),
            Ok(Some(v)) => {
                let ghost before = self.output@;
                self.output.push(v);
                assert(self.output@.map_values(|v: Value| v@) =~= before.map_values(
                    |v: Value| v@,
                ).push(v@));
                Ok(())
            },
        }
    }

    pub fn visit_var_stmt(&mut self, stmt: &VarStmt, fuel: u64) -> (r: LoxResult<()>)
        requires
            old(self).wf(),
            fuel > 0,
        ensures
            old(self).executes(
                *final(self),
                exec(old(self)@, Stmt::Var(*stmt), old(self).spec_repl(), fuel as nat),
                r,
            ),
        decreases fuel, 2nat,
    {
        let value = match &stmt.initializer {
            None => None,
            Some(init) => match self.evaluate(init) {
                Ok(v) => v,
                Err(e) => return Err(e),
            },
        };
        self.environment.define(stmt.name.lexeme.clone(), value);
        Ok(())
    }

    pub fn visit_block_stmt(&mut self, stmt: &BlockStmt, fuel: u64) -> (r: LoxResult<()>)
        requires
            old(self).wf(),
            fuel > 0,
        ensures
            old(self).executes(
                *final(self),
                exec(old(self)@, Stmt::Block(*stmt), old(self).spec_repl(), fuel as nat),
                r,
            ),
        decreases fuel, 2nat,
    {
        self.execute_block(stmt.statements.as_slice(), fuel - 1)
    }

    pub fn visit_if_stmt(&mut self, stmt: &IfStmt, fuel: u64) -> (r: LoxResult<()>)
        requires
            old(self).wf(),
            fuel > 0,
        ensures
            old(self).executes(
                *final(self),
                exec(old(self)@, Stmt::If(*stmt), old(self).spec_repl(), fuel as nat),
                r,
            ),
        decreases fuel, 2nat,
    {
        let value = match self.evaluate(&stmt.condition) {
            Ok(Some(v)) => v,
            Ok(None) => return Err(LoxError::MissingValue),
            Err(e) => return Err(e),
        };
        if is_truthy(&value) {
            self.execute(&stmt.then_branch, fuel - 1)
        } else {
            match &stmt.else_branch {
                Some(else_branch) => self.execute(else_branch, fuel - 1),
                None => Ok(()),
            }
        }
    }

    pub fn visit_while_stmt(&mut self, stmt: &WhileStmt, fuel: u64) -> (r: LoxResult<()>)
        requires
            old(self).wf(),
            fuel > 0,
        ensures
            old(self).executes(
                *final(self),
                exec(old(self)@, Stmt::While(*stmt), old(self).spec_repl(), fuel as nat),
                r,
            ),
        decreases fuel, 2nat,
    {
        let ghost start = self@;
        let ghost depth = self@.frames.len();
        let ghost repl = self.repl;
        let ghost budget = self.budget;
        let mut f: u64 = fuel - 1;
        assert(exec(start, Stmt::While(*stmt), repl, fuel as nat) == exec_while(
            start,
            stmt.condition,
            *stmt.body,
            repl,
            (fuel - 1) as nat,
        ));
        loop
            invariant
                start == old(self)@,
                repl == old(self).spec_repl(),
                depth == old(self)@.frames.len(),
                budget == old(self).spec_budget(),
                f < fuel,
                self.wf(),
                self@.frames.len() == depth,
                self.repl == repl,
                self.budget == budget,
                exec(start, Stmt::While(*stmt), repl, fuel as nat) == exec_while(
                    start,
                    stmt.condition,
                    *stmt.body,
                    repl,
                    (fuel - 1) as nat,
                ),
                exec_while(self@, stmt.condition, *stmt.body, repl, f as nat) == exec_while(
                    start,
                    stmt.condition,
                    *stmt.body,
                    repl,
                    (fuel - 1) as nat,
                ),
            decreases f,
        {
            if f == 0 {
                return Err(LoxError::BudgetExhausted);
            }
            let value = match self.evaluate(&stmt.condition) {
                Ok(Some(v)) => v,
                Ok(None) => return Err(LoxError::MissingValue),
                Err(e) => return Err(e),
            };
            if !is_truthy(&value) {
                return Ok(());
            }
            match self.execute(&stmt.body, f) {
                Err(e) => return Err(e),
                Ok(()) => {},
            }
            f = f - 1;
        }
    }
}

} // verus!
