use minic::expr::{Expr, Literal};
use minic::stmt::{Declare, Directive, Stmt};
use minic::types::Type;

#[test]
fn test_declare_identifier() {
    let s1 = Declare::DeclareIdentifier(String::from("a"), Type::Int, None);
    assert_eq!(s1.to_string(), "int a");
}

#[test]
fn declare_other_kinds_render_a_notice() {
    let d = Declare::DeclarePointer(String::from("p"), Type::Int);
    assert_eq!(d.to_string(), "not implemented yet");
}

#[test]
fn test_include() {
    let directive = Directive::Include(String::from("std"));
    if let Directive::Include(name) = directive {
        assert_eq!(name, String::from("std"));
    }
}

#[test]
fn test_return() {
    let s = Stmt::Return(Box::new(Expr::LiteralExpr(Literal::Int(3))));
    assert!(matches!(s, Stmt::Return(_)));
}
