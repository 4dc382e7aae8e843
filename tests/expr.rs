use minic::expr::{Binary, Expr, GroupExpr, Literal, Trinary, Unary};

fn num(i: i64) -> Box<Expr> {
    Box::new(Expr::LiteralExpr(Literal::Int(i)))
}

fn id(s: &str) -> Box<Expr> {
    Box::new(Expr::LiteralExpr(Literal::ID(String::from(s))))
}

#[test]
fn expr_test_bool() {
    let e = Expr::LiteralExpr(Literal::Bool(false));
    assert_eq!(&e.to_string(), "false");
}

#[test]
fn test_int_literal_expr() {
    let e = Expr::LiteralExpr(Literal::Int(3));
    assert_eq!(&e.to_string(), "3");
}

#[test]
fn expr_test_char() {
    let e = Expr::LiteralExpr(Literal::Char('a'));
    assert_eq!(&e.to_string(), "'a'");
}

#[test]
fn expr_test_string() {
    let e = Expr::LiteralExpr(Literal::String(String::from("abc")));
    assert_eq!(&e.to_string(), "\"abc\"");
}

#[test]
fn test_identifier() {
    let e = Expr::LiteralExpr(Literal::ID(String::from("abc")));
    assert_eq!(&e.to_string(), "abc");
}

#[test]
fn test_unary_expr() {
    {
        let e = Expr::UnaryExpr(Unary::Plus(num(3)));
        assert_eq!(&e.to_string(), "3");
    }
    {
        let e = Expr::UnaryExpr(Unary::Minus(num(3)));
        assert_eq!(&e.to_string(), "-3");
    }
    {
        let e1 = Expr::LiteralExpr(Literal::Bool(false));
        let e = Expr::UnaryExpr(Unary::Bang(Box::new(e1)));
        assert_eq!(&e.to_string(), "!false");
    }
    {
        let e = Expr::UnaryExpr(Unary::BitNot(num(3)));
        assert_eq!(&e.to_string(), "~3");
    }
}

#[test]
fn test_binary_expr() {
    let cases: Vec<(fn(Box<Expr>, Box<Expr>) -> Binary, &str)> = vec![
        (Binary::Plus, "1 + 2"),
        (Binary::Minus, "1 - 2"),
        (Binary::Mul, "1 * 2"),
        (Binary::Div, "1 / 2"),
        (Binary::Mod, "1 % 2"),
        (Binary::Eq, "1 == 2"),
        (Binary::Neq, "1 != 2"),
        (Binary::Gt, "1 > 2"),
        (Binary::Gte, "1 >= 2"),
        (Binary::Lt, "1 < 2"),
        (Binary::Lte, "1 <= 2"),
        (Binary::And, "1 && 2"),
        (Binary::Or, "1 || 2"),
        (Binary::BitAnd, "1 & 2"),
        (Binary::BitOr, "1 | 2"),
        (Binary::BitXor, "1 ^ 2"),
        (Binary::LShift, "1 << 2"),
        (Binary::RShift, "1 >> 2"),
    ];
    for (make, expected) in cases {
        let e = Expr::BinaryExpr(make(num(1), num(2)));
        assert_eq!(&e.to_string(), expected);
    }
    {
        let e = Expr::BinaryExpr(Binary::Call(
            id("sum"),
            vec![
                Expr::LiteralExpr(Literal::Int(1)),
                Expr::LiteralExpr(Literal::ID(String::from("a"))),
                Expr::LiteralExpr(Literal::Int(3)),
            ],
        ));
        assert_eq!(&e.to_string(), "sum(1, a, 3)");
    }
    {
        let e = Expr::BinaryExpr(Binary::Call(
            id("sum"),
            vec![
                Expr::LiteralExpr(Literal::Int(1)),
                Expr::LiteralExpr(Literal::String(String::from("a"))),
                Expr::LiteralExpr(Literal::Int(3)),
            ],
        ));
        assert_eq!(&e.to_string(), "sum(1, \"a\", 3)");
    }
    {
        let e = Expr::BinaryExpr(Binary::Member(id("user"), id("name")));
        assert_eq!(&e.to_string(), "user.name");
    }
    {
        let e = Expr::BinaryExpr(Binary::PtrMember(id("user"), id("name")));
        assert_eq!(&e.to_string(), "user->name");
    }
}

#[test]
fn test_trinary_expr() {
    let cond = Expr::BinaryExpr(Binary::Gt(num(1), num(5)));
    let e = Expr::TrinaryExpr(Trinary::TrinaryExpr(Box::new(cond), num(1), num(5)));
    assert_eq!(&e.to_string(), "1 > 5 ? 1 : 5");
}

#[test]
fn render_mul_of_two_and_four() {
    let e = Expr::BinaryExpr(Binary::Mul(num(2), num(4)));
    assert_eq!(e.to_string(), "2 * 4");
}

#[test]
fn render_group_keeps_parentheses() {
    let inner = Expr::BinaryExpr(Binary::Plus(num(1), num(2)));
    let e = Expr::BinaryExpr(Binary::Mul(
        Box::new(Expr::GroupExpr(GroupExpr::GroupExpr(Box::new(inner)))),
        num(3),
    ));
    assert_eq!(e.to_string(), "(1 + 2) * 3");
}

#[test]
fn render_call_without_and_with_one_argument() {
    let e = Expr::BinaryExpr(Binary::Call(id("f"), vec![]));
    assert_eq!(e.to_string(), "f()");
    let e = Expr::BinaryExpr(Binary::Call(id("f"), vec![Expr::LiteralExpr(Literal::Char('x'))]));
    assert_eq!(e.to_string(), "f('x')");
}

#[test]
fn render_negative_and_extreme_integers() {
    assert_eq!(Expr::LiteralExpr(Literal::Int(-45)).to_string(), "-45");
    assert_eq!(Expr::LiteralExpr(Literal::Int(0)).to_string(), "0");
    assert_eq!(
        Expr::LiteralExpr(Literal::Int(i64::MIN)).to_string(),
        "-9223372036854775808"
    );
    assert_eq!(
        Expr::LiteralExpr(Literal::Int(i64::MAX)).to_string(),
        "9223372036854775807"
    );
    assert_eq!(Expr::LiteralExpr(Literal::Bool(true)).to_string(), "true");
}
