use lox_interp::ast::{
    Assign, Binary, BlockStmt, Expr, ExpressionStmt, IfStmt, Literal, Logical, PrintStmt, Stmt,
    Unary, VarStmt, Variable, WhileStmt,
};
use lox_interp::error::{ErrorKind, LoxError, RuntimeError};
use lox_interp::intrepreter::Intrepreter;
use lox_interp::token::{Token, TokenType};
use lox_interp::value::{is_equal, is_truthy, Value};

fn make_literal_num(num: i64) -> Box<Expr> {
    Box::new(Expr::Literal(Literal { value: Some(Value::Number(num)) }))
}

fn lit(value: Value) -> Expr {
    Expr::Literal(Literal { value: Some(value) })
}

fn text(s: &str) -> Value {
    Value::String(s.to_string())
}

fn ident(name: &str, line: usize) -> Token {
    Token::new(TokenType::Identifier, name, None, line)
}

fn var_ref(name: &str, line: usize) -> Expr {
    Expr::Variable(Variable { name: ident(name, line) })
}

fn binary(left: Expr, op: TokenType, lexeme: &str, right: Expr) -> Expr {
    Expr::Binary(Binary {
        left: Box::new(left),
        operator: Token::new(op, lexeme, None, 1),
        right: Box::new(right),
    })
}

fn assign(name: &str, value: Expr) -> Expr {
    Expr::Assign(Assign { name: ident(name, 1), value: Box::new(value) })
}

fn var_stmt(name: &str, init: Option<Expr>) -> Stmt {
    Stmt::Var(VarStmt { name: ident(name, 1), initializer: init })
}

fn print_stmt(e: Expr) -> Stmt {
    Stmt::Print(PrintStmt { expression: e })
}

fn expr_stmt(e: Expr) -> Stmt {
    Stmt::Expression(ExpressionStmt { expression: e })
}

fn eval_binary(left: Value, op: TokenType, right: Value) -> Result<Option<Value>, LoxError> {
    let mut terp = Intrepreter::default();
    let b = Binary {
        left: Box::new(lit(left)),
        operator: Token::new(op, "op", None, 7),
        right: Box::new(lit(right)),
    };
    terp.visit_binary_exp(&b)
}

fn runtime(line: usize, kind: ErrorKind) -> LoxError {
    LoxError::RunTime(RuntimeError { line, kind })
}

#[test]
fn test_unary_minus() {
    let mut terp = Intrepreter::default();
    let unary = Unary { operator: Token::new(TokenType::Minus, "-", None, 1), right: make_literal_num(123) };

    let result = terp.visit_unary_expr(&unary);
    assert!(result.is_ok());
    assert_eq!(result.ok(), Some(Some(Value::Number(-123))));
}

#[test]
fn test_unary_not() {
    let mut terp = Intrepreter::default();
    let unary = Unary {
        operator: Token::new(TokenType::Bang, "!", None, 1),
        right: Box::new(Expr::Literal(Literal { value: Some(Value::Boolean(true)) })),
    };
    let result = terp.visit_unary_expr(&unary);
    assert!(result.is_ok());
    assert_eq!(result.ok(), Some(Some(Value::Boolean(false))));
}

#[test]
fn test_binary_sub() {
    let mut terp = Intrepreter::default();
    let binary_expr = Binary {
        left: Box::new(Expr::Literal(Literal { value: Some(Value::Number(100)) })),
        operator: Token::new(TokenType::Minus, "-", None, 1),
        right: Box::new(Expr::Literal(Literal { value: Some(Value::Number(50)) })),
    };

    let result = terp.visit_binary_exp(&binary_expr);
    assert!(result.is_ok());
    assert_eq!(result.ok(), Some(Some(Value::Number(50))));
}

#[test]
fn test_binary_add() {
    let mut terp = Intrepreter::default();
    let binary_expr = Binary {
        left: make_literal_num(100),
        operator: Token::new(TokenType::Plus, "+", None, 1),
        right: make_literal_num(200),
    };
    let result = terp.visit_binary_exp(&binary_expr);
    assert!(result.is_ok());
    assert_eq!(result.ok(), Some(Some(Value::Number(300))));
}

#[test]
fn test_binary_mul() {
    let mut terp = Intrepreter::default();
    let binary_expr = Binary {
        left: make_literal_num(10),
        operator: Token::new(TokenType::Star, "*", None, 1),
        right: make_literal_num(20),
    };
    let result = terp.visit_binary_exp(&binary_expr);
    assert!(result.is_ok());
    assert_eq!(result.ok(), Some(Some(Value::Number(200))));
}

#[test]
fn test_binary_equals() {
    let mut terp = Intrepreter::default();
    let binary_expr = Binary {
        left: make_literal_num(15),
        operator: Token::new(TokenType::EqualEqual, "==", None, 1),
        right: make_literal_num(10),
    };
    let result = terp.visit_binary_exp(&binary_expr);
    assert!(result.is_ok());
    assert_eq!(result.ok(), Some(Some(Value::Boolean(false))));
}

#[test]
fn test_binary_div() {
    let mut terp = Intrepreter::default();
    let binary_expr = Binary {
        left: make_literal_num(50),
        operator: Token::new(TokenType::Slash, "/", None, 1),
        right: make_literal_num(10),
    };
    let result = terp.visit_binary_exp(&binary_expr);
    assert!(result.is_ok());
    assert_eq!(result.ok(), Some(Some(Value::Number(5))));
}

#[test]
fn test_binary_greater() {
    let mut terp = Intrepreter::default();
    let binary_expr = Binary {
        left: make_literal_num(50),
        operator: Token::new(TokenType::Greater, ">", None, 1),
        right: make_literal_num(10),
    };
    let result = terp.visit_binary_exp(&binary_expr);
    assert!(result.is_ok());
    assert_eq!(result.ok(), Some(Some(Value::Boolean(true))));
}

#[test]
fn test_binary_smaller() {
    let mut terp = Intrepreter::default();
    let binary_expr = Binary {
        left: make_literal_num(5),
        operator: Token::new(TokenType::Less, "<", None, 1),
        right: make_literal_num(10),
    };
    let result = terp.visit_binary_exp(&binary_expr);
    assert!(result.is_ok());
    assert_eq!(result.ok(), Some(Some(Value::Boolean(true))));
}

#[test]
fn truthiness_of_each_kind() {
    assert!(!is_truthy(&Value::Nil));
    assert!(!is_truthy(&Value::Boolean(false)));
    assert!(is_truthy(&Value::Boolean(true)));
    assert!(is_truthy(&Value::Number(0)));
    assert!(is_truthy(&Value::Number(-1)));
    assert!(is_truthy(&text("")));
    assert!(is_truthy(&text("x")));
}

#[test]
fn equality_rules() {
    assert!(is_equal(&Some(Value::Nil), &Some(Value::Nil)));
    assert!(!is_equal(&None, &None));
    assert!(is_equal(&Some(Value::Number(1)), &Some(Value::Number(1))));
    assert!(!is_equal(&Some(Value::Number(1)), &Some(text("1"))));
    assert!(is_equal(&Some(text("ab")), &Some(text("ab"))));
    assert!(!is_equal(&Some(Value::Nil), &None));
    assert!(!is_equal(&Some(Value::Boolean(false)), &Some(Value::Nil)));
}

#[test]
fn equality_of_two_uninitialized_variables_is_false() {
    let mut terp = Intrepreter::without_repl();
    let program = vec![
        var_stmt("a", None),
        var_stmt("b", None),
        print_stmt(binary(var_ref("a", 1), TokenType::EqualEqual, "==", var_ref("b", 1))),
        print_stmt(binary(var_ref("a", 1), TokenType::BangEqual, "!=", var_ref("b", 1))),
    ];
    assert_eq!(terp.intrepret(&program), Ok(()));
    assert_eq!(terp.output(), &vec![Value::Boolean(false), Value::Boolean(true)]);
}

#[test]
fn or_short_circuits_right_operand() {
    let mut terp = Intrepreter::without_repl();
    let logical = Expr::Logical(Logical {
        left: Box::new(lit(Value::Boolean(true))),
        operator: Token::new(TokenType::Or, "or", None, 1),
        right: Box::new(assign("count", binary(var_ref("count", 1), TokenType::Plus, "+", lit(Value::Number(1))))),
    });
    let program = vec![var_stmt("count", Some(lit(Value::Number(0)))), print_stmt(logical), print_stmt(var_ref("count", 1))];
    assert_eq!(terp.intrepret(&program), Ok(()));
    assert_eq!(terp.output(), &vec![Value::Boolean(true), Value::Number(0)]);
}

#[test]
fn or_evaluates_right_operand_on_falsy_left() {
    let mut terp = Intrepreter::without_repl();
    let logical = Expr::Logical(Logical {
        left: Box::new(lit(Value::Nil)),
        operator: Token::new(TokenType::Or, "or", None, 1),
        right: Box::new(assign("count", binary(var_ref("count", 1), TokenType::Plus, "+", lit(Value::Number(1))))),
    });
    let program = vec![var_stmt("count", Some(lit(Value::Number(0)))), print_stmt(logical), print_stmt(var_ref("count", 1))];
    assert_eq!(terp.intrepret(&program), Ok(()));
    assert_eq!(terp.output(), &vec![Value::Number(1), Value::Number(1)]);
}

#[test]
fn and_short_circuits_on_falsy_left() {
    let mut terp = Intrepreter::without_repl();
    let logical = Expr::Logical(Logical {
        left: Box::new(lit(Value::Boolean(false))),
        operator: Token::new(TokenType::And, "and", None, 1),
        right: Box::new(assign("count", lit(Value::Number(9)))),
    });
    let program = vec![var_stmt("count", Some(lit(Value::Number(0)))), print_stmt(logical), print_stmt(var_ref("count", 1))];
    assert_eq!(terp.intrepret(&program), Ok(()));
    assert_eq!(terp.output(), &vec![Value::Boolean(false), Value::Number(0)]);
}

#[test]
fn string_minus_number_is_type_error() {
    assert_eq!(eval_binary(text("a"), TokenType::Minus, Value::Number(1)), Err(runtime(7, ErrorKind::OperandsMustBeNumbers)));
}

#[test]
fn mixed_plus_is_type_error_both_orders() {
    assert_eq!(
        eval_binary(Value::Number(1), TokenType::Plus, text("a")),
        Err(runtime(7, ErrorKind::OperandsMustBeNumbersOrStrings))
    );
    assert_eq!(
        eval_binary(text("a"), TokenType::Plus, Value::Number(1)),
        Err(runtime(7, ErrorKind::OperandsMustBeNumbersOrStrings))
    );
}

#[test]
fn arithmetic_exact_values() {
    assert_eq!(eval_binary(Value::Number(7), TokenType::Minus, Value::Number(10)), Ok(Some(Value::Number(-3))));
    assert_eq!(eval_binary(Value::Number(-12), TokenType::Slash, Value::Number(4)), Ok(Some(Value::Number(-3))));
    assert_eq!(eval_binary(Value::Number(-6), TokenType::Star, Value::Number(7)), Ok(Some(Value::Number(-42))));
    assert_eq!(eval_binary(Value::Number(3), TokenType::GreaterEqual, Value::Number(3)), Ok(Some(Value::Boolean(true))));
    assert_eq!(eval_binary(Value::Number(4), TokenType::LessEqual, Value::Number(3)), Ok(Some(Value::Boolean(false))));
    assert_eq!(eval_binary(text("ab"), TokenType::Plus, text("cd")), Ok(Some(text("abcd"))));
    assert_eq!(eval_binary(text("a"), TokenType::BangEqual, text("a")), Ok(Some(Value::Boolean(false))));
}

#[test]
fn arithmetic_errors() {
    assert_eq!(eval_binary(Value::Number(1), TokenType::Slash, Value::Number(0)), Err(runtime(7, ErrorKind::DivisionByZero)));
    assert_eq!(eval_binary(Value::Number(7), TokenType::Slash, Value::Number(2)), Err(runtime(7, ErrorKind::InexactDivision)));
    assert_eq!(eval_binary(Value::Number(i64::MAX), TokenType::Plus, Value::Number(1)), Err(runtime(7, ErrorKind::NumberOutOfRange)));
    assert_eq!(eval_binary(Value::Number(i64::MIN), TokenType::Slash, Value::Number(-1)), Err(runtime(7, ErrorKind::NumberOutOfRange)));
    assert_eq!(eval_binary(Value::Number(1), TokenType::Less, Value::Nil), Err(runtime(7, ErrorKind::OperandsMustBeNumbers)));
    assert_eq!(eval_binary(Value::Number(1), TokenType::Comma, Value::Number(2)), Err(runtime(7, ErrorKind::OperandsMustBeNumbersOrStrings)));
}

#[test]
fn unary_minus_errors() {
    let mut terp = Intrepreter::default();
    let unary = Unary { operator: Token::new(TokenType::Minus, "-", None, 3), right: Box::new(lit(text("a"))) };
    assert_eq!(terp.visit_unary_expr(&unary), Err(runtime(3, ErrorKind::OperandMustBeNumber)));
    let unary = Unary { operator: Token::new(TokenType::Minus, "-", None, 4), right: make_literal_num(i64::MIN) };
    assert_eq!(terp.visit_unary_expr(&unary), Err(runtime(4, ErrorKind::NumberOutOfRange)));
}

#[test]
fn missing_value_errors() {
    let mut terp = Intrepreter::without_repl();
    let absent = Expr::Literal(Literal { value: None });
    assert_eq!(terp.intrepret(&[print_stmt(absent)]), Err(LoxError::MissingValue));
    let program = vec![var_stmt("u", None), print_stmt(binary(var_ref("u", 1), TokenType::Plus, "+", lit(Value::Number(1))))];
    assert_eq!(terp.intrepret(&program), Err(LoxError::MissingValue));
}

#[test]
fn scenario_shadowing_in_block() {
    let mut terp = Intrepreter::without_repl();
    let program = vec![
        var_stmt("x", Some(lit(Value::Number(1)))),
        Stmt::Block(BlockStmt { statements: vec![var_stmt("x", Some(lit(Value::Number(2)))), print_stmt(var_ref("x", 1))] }),
        print_stmt(var_ref("x", 1)),
    ];
    assert_eq!(terp.intrepret(&program), Ok(()));
    assert_eq!(terp.output(), &vec![Value::Number(2), Value::Number(1)]);
    assert_eq!(terp.environment().depth(), 1);
}

#[test]
fn scenario_assignment() {
    let mut terp = Intrepreter::without_repl();
    let program = vec![
        var_stmt("a", Some(lit(Value::Number(10)))),
        expr_stmt(assign("a", binary(var_ref("a", 1), TokenType::Plus, "+", lit(Value::Number(5))))),
        print_stmt(var_ref("a", 1)),
    ];
    assert_eq!(terp.intrepret(&program), Ok(()));
    assert_eq!(terp.output(), &vec![Value::Number(15)]);
}

#[test]
fn scenario_string_concatenation() {
    let mut terp = Intrepreter::without_repl();
    let program = vec![print_stmt(binary(lit(text("a")), TokenType::Plus, "+", lit(text("b"))))];
    assert_eq!(terp.intrepret(&program), Ok(()));
    assert_eq!(terp.output(), &vec![text("ab")]);
}

#[test]
fn scenario_while_loop() {
    let mut terp = Intrepreter::without_repl();
    let body = Stmt::Block(BlockStmt {
        statements: vec![
            print_stmt(var_ref("i", 1)),
            expr_stmt(assign("i", binary(var_ref("i", 1), TokenType::Plus, "+", lit(Value::Number(1))))),
        ],
    });
    let program = vec![
        var_stmt("i", Some(lit(Value::Number(0)))),
        Stmt::While(WhileStmt {
            condition: binary(var_ref("i", 1), TokenType::Less, "<", lit(Value::Number(3))),
            body: Box::new(body),
        }),
    ];
    assert_eq!(terp.intrepret(&program), Ok(()));
    assert_eq!(terp.output(), &vec![Value::Number(0), Value::Number(1), Value::Number(2)]);
}

#[test]
fn scenario_undefined_variable() {
    let mut terp = Intrepreter::without_repl();
    let program = vec![print_stmt(var_ref("x", 4))];
    assert_eq!(
        terp.intrepret(&program),
        Err(runtime(4, ErrorKind::UndefinedVariable("x".to_string())))
    );
    assert!(terp.output().is_empty());
}

#[test]
fn failure_stops_the_sequence() {
    let mut terp = Intrepreter::without_repl();
    let program = vec![
        print_stmt(lit(Value::Number(1))),
        expr_stmt(assign("y", lit(Value::Number(2)))),
        print_stmt(lit(Value::Number(3))),
    ];
    assert_eq!(terp.intrepret(&program), Err(runtime(1, ErrorKind::UndefinedVariable("y".to_string()))));
    assert_eq!(terp.output(), &vec![Value::Number(1)]);
}

#[test]
fn if_else_branches() {
    let mut terp = Intrepreter::without_repl();
    let program = vec![
        Stmt::If(IfStmt {
            condition: lit(Value::Number(0)),
            then_branch: Box::new(print_stmt(lit(text("then")))),
            else_branch: Some(Box::new(print_stmt(lit(text("else"))))),
        }),
        Stmt::If(IfStmt {
            condition: lit(Value::Nil),
            then_branch: Box::new(print_stmt(lit(text("then")))),
            else_branch: Some(Box::new(print_stmt(lit(text("else"))))),
        }),
        Stmt::If(IfStmt { condition: lit(Value::Boolean(false)), then_branch: Box::new(print_stmt(lit(text("then")))), else_branch: None }),
    ];
    assert_eq!(terp.intrepret(&program), Ok(()));
    assert_eq!(terp.output(), &vec![text("then"), text("else")]);
}

#[test]
fn block_assignment_reaches_outer_scope() {
    let mut terp = Intrepreter::without_repl();
    let program = vec![
        var_stmt("x", Some(lit(Value::Number(1)))),
        Stmt::Block(BlockStmt { statements: vec![expr_stmt(assign("x", lit(Value::Number(5))))] }),
        print_stmt(var_ref("x", 1)),
    ];
    assert_eq!(terp.intrepret(&program), Ok(()));
    assert_eq!(terp.output(), &vec![Value::Number(5)]);
}

#[test]
fn endless_loop_exhausts_budget() {
    let mut terp = Intrepreter::without_repl();
    terp.set_budget(50);
    let program = vec![Stmt::While(WhileStmt { condition: lit(Value::Boolean(true)), body: Box::new(expr_stmt(lit(Value::Nil))) })];
    assert_eq!(terp.intrepret(&program), Err(LoxError::BudgetExhausted));
}

#[test]
fn repl_surfaces_expression_value() {
    let mut terp = Intrepreter::default();
    assert_eq!(terp.intrepret(&[expr_stmt(lit(Value::Number(42)))]), Ok(()));
    assert_eq!(terp.shown(), Some(Value::Number(42)));
    let mut script = Intrepreter::without_repl();
    assert_eq!(script.intrepret(&[expr_stmt(lit(Value::Number(42)))]), Ok(()));
    assert_eq!(script.shown(), None);
}

#[test]
fn take_output_hands_out_and_clears() {
    let mut terp = Intrepreter::without_repl();
    assert_eq!(terp.intrepret(&[print_stmt(lit(Value::Boolean(true)))]), Ok(()));
    assert_eq!(terp.take_output(), vec![Value::Boolean(true)]);
    assert!(terp.output().is_empty());
}
