use minic::expr::{Binary, Expr, Literal};
use minic::stmt::CompilationUnit;
use minic::type_checker::{TypeChecker, TypeError};
use minic::types::Type;

#[test]
fn test_literal_types() {
    {
        let mut typechecker = TypeChecker::new();
        let e = Expr::LiteralExpr(Literal::Bool(false));
        assert_eq!(typechecker.type_check_expr(&e), Ok(Type::Bool));
    }
    {
        let mut typechecker = TypeChecker::new();
        let e = Expr::LiteralExpr(Literal::Int(32));
        assert_eq!(typechecker.type_check_expr(&e), Ok(Type::Int));
    }
    {
        let mut typechecker = TypeChecker::new();
        let e = Expr::LiteralExpr(Literal::Char('a'));
        assert_eq!(typechecker.type_check_expr(&e), Ok(Type::Char));
    }
}

#[test]
fn other_expressions_have_no_inferred_type() {
    let mut tc = TypeChecker::new();
    let e = Expr::LiteralExpr(Literal::String(String::from("s")));
    assert_eq!(tc.type_check_expr(&e), Ok(Type::String));
    let e = Expr::LiteralExpr(Literal::ID(String::from("x")));
    assert_eq!(tc.type_check_expr(&e), Err(TypeError::UntypedIdentifier));
    let e = Expr::BinaryExpr(Binary::Plus(
        Box::new(Expr::LiteralExpr(Literal::Int(1))),
        Box::new(Expr::LiteralExpr(Literal::Int(2))),
    ));
    assert_eq!(tc.type_check_expr(&e), Err(TypeError::UnsupportedExpression));
    assert_eq!(tc.type_check(CompilationUnit { stmts: Vec::new() }), None);
}
