use vstd::prelude::*;

use crate::decimal::{decimal, push_decimal};
use crate::text::{push_char, push_str};

verus! {

/// A leaf expression: a constant or a name.
#[derive(PartialEq, Debug)]
pub enum Literal {
    Bool(bool),
    Int(i64),
    Char(char),
    String(String),
    ID(String),
}

#[derive(PartialEq, Debug)]
pub enum Unary {
    /// `+2`
    Plus(Box<Expr>),
    /// `-2`
    Minus(Box<Expr>),
    /// `!false`
    Bang(Box<Expr>),
    /// `~a`
    BitNot(Box<Expr>),
}

#[derive(PartialEq, Debug)]
pub enum Binary {
    /// `a + b`
    Plus(Box<Expr>, Box<Expr>),
    /// `a - b`
    Minus(Box<Expr>, Box<Expr>),
    /// `a * b`
    Mul(Box<Expr>, Box<Expr>),
    /// `a / b`
    Div(Box<Expr>, Box<Expr>),
    /// `a % b`
    Mod(Box<Expr>, Box<Expr>),
    /// `a == b`
    Eq(Box<Expr>, Box<Expr>),
    /// `a != b`
    Neq(Box<Expr>, Box<Expr>),
    /// `a > b`
    Gt(Box<Expr>, Box<Expr>),
    /// `a < b`
    Lt(Box<Expr>, Box<Expr>),
    /// `a >= b`
    Gte(Box<Expr>, Box<Expr>),
    /// `a <= b`
    Lte(Box<Expr>, Box<Expr>),
    /// `a && b`
    And(Box<Expr>, Box<Expr>),
    /// `a || b`
    Or(Box<Expr>, Box<Expr>),
    /// `a & b`
    BitAnd(Box<Expr>, Box<Expr>),
    /// `a | b`
    BitOr(Box<Expr>, Box<Expr>),
    /// `a ^ b`
    BitXor(Box<Expr>, Box<Expr>),
    /// `a << b`
    LShift(Box<Expr>, Box<Expr>),
    /// `a >> b`
    RShift(Box<Expr>, Box<Expr>),
    /// `foo(a, b, ...)`
    Call(Box<Expr>, Vec<Expr>),
    /// `foo.bar`
    Member(Box<Expr>, Box<Expr>),
    /// `foo->bar`
    PtrMember(Box<Expr>, Box<Expr>),
}

/// `cond ? a : b`
#[derive(PartialEq, Debug)]
pub enum Trinary {
    TrinaryExpr(Box<Expr>, Box<Expr>, Box<Expr>),
}

/// `(a)`, kept as written so that rendering shows the parentheses.
#[derive(PartialEq, Debug)]
pub enum GroupExpr {
    GroupExpr(Box<Expr>),
}

/// An expression tree; every node owns its children.
#[derive(PartialEq, Debug)]
pub enum Expr {
    LiteralExpr(Literal),
    UnaryExpr(Unary),
    BinaryExpr(Binary),
    TrinaryExpr(Trinary),
    GroupExpr(GroupExpr),
}

pub open spec fn render_literal(l: Literal) -> Seq<char> {
    match l {
        Literal::Bool(b) => if b { "true"@ } else { "false"@ },
        Literal::Int(i) => decimal(i as int),
        Literal::Char(c) => seq!['\'', c, '\''],
        Literal::String(s) => seq!['"'] + s@ + seq!['"'],
        Literal::ID(s) => s@,
    }
}

/// The text of an expression, one fixed rule per kind of node.
pub open spec fn render(e: Expr) -> Seq<char>
    decreases e,
{
    match e {
        Expr::LiteralExpr(l) => render_literal(l),
        Expr::UnaryExpr(u) => match u {
            Unary::Plus(x) => render(*x),
            Unary::Minus(x) => seq!['-'] + render(*x),
            Unary::Bang(x) => seq!['!'] + render(*x),
            Unary::BitNot(x) => seq!['~'] + render(*x),
        },
        Expr::BinaryExpr(b) => match b {
            Binary::Plus(l, r) => render(*l) + " + "@ + render(*r),
            Binary::Minus(l, r) => render(*l) + " - "@ + render(*r),
            Binary::Mul(l, r) => render(*l) + " * "@ + render(*r),
            Binary::Div(l, r) => render(*l) + " / "@ + render(*r),
            Binary::Mod(l, r) => render(*l) + " % "@ + render(*r),
            Binary::Eq(l, r) => render(*l) + " == "@ + render(*r),
            Binary::Neq(l, r) => render(*l) + " != "@ + render(*r),
            Binary::Gt(l, r) => render(*l) + " > "@ + render(*r),
            Binary::Lt(l, r) => render(*l) + " < "@ + render(*r),
            Binary::Gte(l, r) => render(*l) + " >= "@ + render(*r),
            Binary::Lte(l, r) => render(*l) + " <= "@ + render(*r),
            Binary::And(l, r) => render(*l) + " && "@ + render(*r),
            Binary::Or(l, r) => render(*l) + " || "@ + render(*r),
            Binary::BitAnd(l, r) => render(*l) + " & "@ + render(*r),
            Binary::BitOr(l, r) => render(*l) + " | "@ + render(*r),
            Binary::BitXor(l, r) => render(*l) + " ^ "@ + render(*r),
            Binary::LShift(l, r) => render(*l) + " << "@ + render(*r),
            Binary::RShift(l, r) => render(*l) + " >> "@ + render(*r),
            Binary::Call(f, args) => render(*f) + seq!['('] + render_args(args@) + seq![')'],
            Binary::Member(l, r) => render(*l) + seq!['.'] + render(*r),
            Binary::PtrMember(l, r) => render(*l) + "->"@ + render(*r),
        },
        Expr::TrinaryExpr(Trinary::TrinaryExpr(c, a, b)) => render(*c) + " ? "@ + render(*a)
            + " : "@ + render(*b),
        Expr::GroupExpr(GroupExpr::GroupExpr(x)) => seq!['('] + render(*x) + seq![')'],
    }
}

/// The texts of a call's arguments, separated by `, `.
pub open spec fn render_args(args: Seq<Expr>) -> Seq<char>
    decreases args,
{
    if args.len() == 0 {
        Seq::empty()
    } else if args.len() == 1 {
        render(args[0])
    } else {
        render_args(args.subrange(0, args.len() - 1)) + ", "@ + render(args[args.len() - 1])
    }
}

impl Literal {
    /// Appends the text of this literal to `s`.
    fn render_into(&self, s: &mut String)
        ensures
            final(s)@ == old(s)@ + render_literal(*self),
    {
        match self {
            Literal::Bool(b) => {
                if *b {
                    push_str(s, "true");
                } else {
                    push_str(s, "false");
                }
            },
            Literal::Int(i) => push_decimal(s, *i),
            Literal::Char(c) => {
                push_char(s, '\'');
                push_char(s, *c);
                push_char(s, '\'');
                assert(final(s)@ =~= old(s)@ + render_literal(*self));
            },
            Literal::String(text) => {
                push_char(s, '"');
                push_str(s, text.as_str());
                push_char(s, '"');
                assert(final(s)@ =~= old(s)@ + render_literal(*self));
            },
            Literal::ID(name) => push_str(s, name.as_str()),
        }
    }
}

impl Binary {
    /// Appends the text of a binary expression to `s`.
    fn render_into(&self, s: &mut String)
        ensures
            final(s)@ == old(s)@ + render(Expr::BinaryExpr(*self)),
        decreases self,
    {
        let ghost start = s@;
    match self {
            Binary::Plus(l, r) => {
                l.render_into(s);
                push_str(s, " + ");
                r.render_into(s);
            },
            Binary::Minus(l, r) => {
                l.render_into(s);
                push_str(s, " - ");
                r.render_into(s);
            },
            Binary::Mul(l, r) => {
                l.render_into(s);
                push_str(s, " * ");
                r.render_into(s);
            },
            Binary::Div(l, r) => {
                l.render_into(s);
                push_str(s, " / ");
                r.render_into(s);
            },
            Binary::Mod(l, r) => {
                l.render_into(s);
                push_str(s, " % ");
                r.render_into(s);
            },
            Binary::Eq(l, r) => {
                l.render_into(s);
                push_str(s, " == ");
                r.render_into(s);
            },
            Binary::Neq(l, r) => {
                l.render_into(s);
                push_str(s, " != ");
                r.render_into(s);
            },
            Binary::Gt(l, r) => {
                l.render_into(s);
                push_str(s, " > ");
                r.render_into(s);
            },
            Binary::Lt(l, r) => {
                l.render_into(s);
                push_str(s, " < ");
                r.render_into(s);
            },
            Binary::Gte(l, r) => {
                l.render_into(s);
                push_str(s, " >= ");
                r.render_into(s);
            },
            Binary::Lte(l, r) => {
                l.render_into(s);
                push_str(s, " <= ");
                r.render_into(s);
            },
            Binary::And(l, r) => {
                l.render_into(s);
                push_str(s, " && ");
                r.render_into(s);
            },
            Binary::Or(l, r) => {
                l.render_into(s);
                push_str(s, " || ");
                r.render_into(s);
            },
            Binary::BitAnd(l, r) => {
                l.render_into(s);
                push_str(s, " & ");
                r.render_into(s);
            },
            Binary::BitOr(l, r) => {
                l.render_into(s);
                push_str(s, " | ");
                r.render_into(s);
            },
            Binary::BitXor(l, r) => {
                l.render_into(s);
                push_str(s, " ^ ");
                r.render_into(s);
            },
            Binary::LShift(l, r) => {
                l.render_into(s);
                push_str(s, " << ");
                r.render_into(s);
            },
            Binary::RShift(l, r) => {
                l.render_into(s);
                push_str(s, " >> ");
                r.render_into(s);
            },
            Binary::Call(f, args) => {
                f.render_into(s);
                push_char(s, '(');
                let ghost open = s@;
                let n = args.len();
                let mut i: usize = 0;
                while i < n
                    invariant
                        n == args.len(),
                        decreases_to!(*self => *args),
                        i <= n,
                        s@ == open + render_args(args@.subrange(0, i as int)),
                    decreases n - i,
                {
                    let ghost before = s@;
                    if i > 0 {
                        push_str(s, ", ");
                    }
                    args[i].render_into(s);
                    assert(args@.subrange(0, i + 1).subrange(0, i as int) =~= args@.subrange(
                        0,
                        i as int,
                    ));
                    assert(i == 0 ==> args@.subrange(0, i as int) =~= Seq::<Expr>::empty());
                    i = i + 1;
                }
                push_char(s, ')');
                assert(args@.subrange(0, n as int) =~= args@);
            },
            Binary::Member(l, r) => {
                l.render_into(s);
                push_char(s, '.');
                r.render_into(s);
            },
            Binary::PtrMember(l, r) => {
                l.render_into(s);
                push_str(s, "->");
                r.render_into(s);
            },
    }
        assert(final(s)@ =~= start + render(Expr::BinaryExpr(*self)));
    }
}

impl Expr {
    /// Appends the text of this expression to `s`.
    pub fn render_into(&self, s: &mut String)
        ensures
            final(s)@ == old(s)@ + render(*self),
        decreases self,
    {
        let ghost start = s@;
        match self {
            Expr::LiteralExpr(l) => l.render_into(s),
            Expr::UnaryExpr(u) => match u {
                Unary::Plus(x) => x.render_into(s),
                Unary::Minus(x) => {
                    push_char(s, '-');
                    x.render_into(s);
                },
                Unary::Bang(x) => {
                    push_char(s, '!');
                    x.render_into(s);
                },
                Unary::BitNot(x) => {
                    push_char(s, '~');
                    x.render_into(s);
                },
            },
            Expr::BinaryExpr(b) => b.render_into(s),
            Expr::TrinaryExpr(Trinary::TrinaryExpr(c, a, b)) => {
                c.render_into(s);
                push_str(s, " ? ");
                a.render_into(s);
                push_str(s, " : ");
                b.render_into(s);
            },
            Expr::GroupExpr(GroupExpr::GroupExpr(x)) => {
                push_char(s, '(');
                x.render_into(s);
                push_char(s, ')');
            },
        }
        assert(final(s)@ =~= start + render(*self));
    }

    /// The text of this expression.
    pub fn to_string(&self) -> (r: String)
        ensures
            r@ == render(*self),
    {
        let mut s = String::new();
        self.render_into(&mut s);
        assert(s@ =~= render(*self));
        s
    }
}

} // verus!
