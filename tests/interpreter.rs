use minic::env::{Env, Local};
use minic::expr::{Binary, Expr, GroupExpr, Literal, Trinary, Unary};
use minic::interpreter::{EvalError, Intepreter};
use minic::stmt::{CompilationUnit, Stmt};
use minic::value::Value;

fn num(i: i64) -> Box<Expr> {
    Box::new(Expr::LiteralExpr(Literal::Int(i)))
}

fn boolean(b: bool) -> Box<Expr> {
    Box::new(Expr::LiteralExpr(Literal::Bool(b)))
}

fn id(s: &str) -> Box<Expr> {
    Box::new(Expr::LiteralExpr(Literal::ID(String::from(s))))
}

#[test]
fn test_local() {
    let mut env = Local::new();
    env.set("age", Value::Int(10));
    let r = env.get("age");
    match r {
        Value::Int(v) => assert_eq!(v, 10),
        _ => panic!("it should be a Value::Int(3)"),
    }
}

#[test]
fn local_overwrites_and_keeps_others() {
    let mut env = Local::new();
    env.set("a", Value::Int(1));
    env.set("b", Value::Bool(true));
    env.set("a", Value::String(String::from("x")));
    assert_eq!(env.get("a"), Value::String(String::from("x")));
    assert_eq!(env.get("b"), Value::Bool(true));
    assert_eq!(env.get("c"), Value::Null);
}

#[test]
fn test_intepreter() {
    let mut intepreter = Intepreter::new();
    let value = intepreter.inteprete(CompilationUnit { stmts: Vec::new() });
    assert_eq!(value, Ok(Value::Null));
}

#[test]
fn test_intepreter_expr() {
    let mut intepreter = Intepreter::new();
    {
        let expect_value = 3;
        let e = Expr::LiteralExpr(Literal::Int(expect_value));
        assert_eq!(intepreter.inteprete_expr(e), Ok(Value::Int(expect_value)));
    }
    {
        let expect_value: i64 = -3;
        let e = Expr::UnaryExpr(Unary::Minus(num(3)));
        assert_eq!(intepreter.inteprete_expr(e), Ok(Value::Int(expect_value)));
    }
    {
        let expect_value: i64 = 8;
        let e = Expr::BinaryExpr(Binary::Mul(num(2), num(4)));
        assert_eq!(intepreter.inteprete_expr(e), Ok(Value::Int(expect_value)));
    }
    {
        let expect_value = 3;
        let e = Expr::GroupExpr(GroupExpr::GroupExpr(num(expect_value)));
        assert_eq!(intepreter.inteprete_expr(e), Ok(Value::Int(expect_value)));
    }
    {
        let e = Expr::TrinaryExpr(Trinary::TrinaryExpr(boolean(true), num(5), num(3)));
        assert_eq!(intepreter.inteprete_expr(e), Ok(Value::Int(5)));
    }
    {
        let e = Expr::TrinaryExpr(Trinary::TrinaryExpr(boolean(false), num(5), num(3)));
        assert_eq!(intepreter.inteprete_expr(e), Ok(Value::Int(3)));
    }
}

#[test]
fn test_inteprete_stmt() {
    let mut intepreter = Intepreter::new();
    let expect_value = 10;
    let s = Stmt::Assign(id("age"), num(expect_value));
    assert_eq!(intepreter.intepreter_stmt(s), Ok(()));
    if let Value::Int(actual_value) = intepreter.env.get("age") {
        assert_eq!(actual_value, 10);
    } else {
        panic!("age should be bound to an integer");
    }
}

#[test]
fn undefined_name_is_null() {
    let mut intepreter = Intepreter::new();
    assert_eq!(intepreter.env.get("undefined_name"), Value::Null);
    assert_eq!(intepreter.inteprete_expr(*id("undefined_name")), Ok(Value::Null));
}

#[test]
fn literals_evaluate_to_values() {
    let mut it = Intepreter::new();
    assert_eq!(it.inteprete_expr(*boolean(true)), Ok(Value::Bool(true)));
    assert_eq!(
        it.inteprete_expr(Expr::LiteralExpr(Literal::String(String::from("s")))),
        Ok(Value::String(String::from("s")))
    );
    assert_eq!(it.inteprete_expr(Expr::LiteralExpr(Literal::Char('7'))), Ok(Value::Int(7)));
    assert_eq!(
        it.inteprete_expr(Expr::LiteralExpr(Literal::Char('a'))),
        Err(EvalError::InvalidCharLiteral('a'))
    );
}

#[test]
fn arithmetic_rules() {
    let mut it = Intepreter::new();
    assert_eq!(it.inteprete_expr(Expr::BinaryExpr(Binary::Plus(num(1), num(2)))), Ok(Value::Int(3)));
    assert_eq!(it.inteprete_expr(Expr::BinaryExpr(Binary::Minus(num(1), num(2)))), Ok(Value::Int(-1)));
    assert_eq!(it.inteprete_expr(Expr::BinaryExpr(Binary::Div(num(7), num(2)))), Ok(Value::Int(3)));
    assert_eq!(it.inteprete_expr(Expr::BinaryExpr(Binary::Div(num(-7), num(2)))), Ok(Value::Int(-3)));
    assert_eq!(it.inteprete_expr(Expr::BinaryExpr(Binary::Div(num(7), num(-2)))), Ok(Value::Int(-3)));
    assert_eq!(
        it.inteprete_expr(Expr::BinaryExpr(Binary::Div(num(i64::MIN), num(1)))),
        Ok(Value::Int(i64::MIN))
    );
    assert_eq!(it.inteprete_expr(Expr::UnaryExpr(Unary::Plus(num(4)))), Ok(Value::Int(4)));
}

#[test]
fn arithmetic_errors() {
    let mut it = Intepreter::new();
    assert_eq!(
        it.inteprete_expr(Expr::BinaryExpr(Binary::Div(num(1), num(0)))),
        Err(EvalError::DivisionByZero)
    );
    assert_eq!(
        it.inteprete_expr(Expr::BinaryExpr(Binary::Div(num(i64::MIN), num(-1)))),
        Err(EvalError::Overflow)
    );
    assert_eq!(
        it.inteprete_expr(Expr::BinaryExpr(Binary::Plus(num(i64::MAX), num(1)))),
        Err(EvalError::Overflow)
    );
    assert_eq!(
        it.inteprete_expr(Expr::UnaryExpr(Unary::Minus(num(i64::MIN)))),
        Err(EvalError::Overflow)
    );
    assert_eq!(
        it.inteprete_expr(Expr::BinaryExpr(Binary::Mul(num(i64::MAX), num(2)))),
        Err(EvalError::Overflow)
    );
}

#[test]
fn type_and_operator_errors() {
    let mut it = Intepreter::new();
    assert_eq!(
        it.inteprete_expr(Expr::BinaryExpr(Binary::Plus(boolean(true), num(1)))),
        Err(EvalError::TypeMismatch)
    );
    assert_eq!(
        it.inteprete_expr(Expr::UnaryExpr(Unary::Minus(boolean(true)))),
        Err(EvalError::TypeMismatch)
    );
    assert_eq!(
        it.inteprete_expr(Expr::GroupExpr(GroupExpr::GroupExpr(boolean(true)))),
        Err(EvalError::TypeMismatch)
    );
    assert_eq!(
        it.inteprete_expr(Expr::TrinaryExpr(Trinary::TrinaryExpr(num(1), num(5), num(3)))),
        Err(EvalError::TypeMismatch)
    );
    assert_eq!(
        it.inteprete_expr(Expr::BinaryExpr(Binary::Mod(num(5), num(3)))),
        Err(EvalError::UnsupportedOperator)
    );
    assert_eq!(
        it.inteprete_expr(Expr::UnaryExpr(Unary::Bang(boolean(true)))),
        Err(EvalError::UnsupportedOperator)
    );
    assert_eq!(
        it.inteprete_expr(Expr::TrinaryExpr(Trinary::TrinaryExpr(
            boolean(true),
            num(5),
            Box::new(Expr::BinaryExpr(Binary::Div(num(1), num(0)))),
        ))),
        Err(EvalError::DivisionByZero)
    );
}

#[test]
fn assignment_target_must_be_an_identifier() {
    let mut it = Intepreter::new();
    assert_eq!(
        it.intepreter_stmt(Stmt::Assign(num(1), num(2))),
        Err(EvalError::InvalidAssignmentTarget)
    );
}

#[test]
fn statements_run_in_order_and_stop_at_the_first_error() {
    let mut it = Intepreter::new();
    let unit = CompilationUnit {
        stmts: vec![
            Stmt::Assign(id("x"), num(2)),
            Stmt::Assign(id("y"), Box::new(Expr::BinaryExpr(Binary::Mul(id("x"), num(21))))),
            Stmt::Return(id("y")),
        ],
    };
    assert_eq!(it.inteprete(unit), Ok(Value::Null));
    assert_eq!(it.env.get("y"), Value::Int(42));

    let unit = CompilationUnit {
        stmts: vec![
            Stmt::Assign(id("z"), boolean(true)),
            Stmt::Assign(num(0), num(1)),
            Stmt::Assign(id("w"), num(5)),
        ],
    };
    assert_eq!(it.inteprete(unit), Err(EvalError::InvalidAssignmentTarget));
    assert_eq!(it.env.get("z"), Value::Bool(true));
    assert_eq!(it.env.get("w"), Value::Null);
}
