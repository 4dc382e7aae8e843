use vstd::prelude::*;

use crate::env::{lookup, Env, Local};
use crate::expr::{Binary, Expr, GroupExpr, Literal, Trinary, Unary};
use crate::stmt::{CompilationUnit, Stmt};
use crate::tokenizer::{digit_value, is_digit};
use crate::value::Value;

verus! {

/// Why an expression or statement could not be evaluated.
#[derive(Debug, PartialEq, Eq, Structural, Clone, Copy)]
pub enum EvalError {
    /// An operand's value is not of the kind the operator needs.
    TypeMismatch,
    /// The operator has no evaluation rule.
    UnsupportedOperator,
    /// The left side of an assignment is not an identifier.
    InvalidAssignmentTarget,
    /// A character literal that is not a decimal digit.
    InvalidCharLiteral(char),
    /// A division whose divisor is zero.
    DivisionByZero,
    /// An integer result outside the range of `i64`.
    Overflow,
}

/// The arithmetic operators that have an evaluation rule.
pub enum ArithOp {
    Add,
    Sub,
    Mul,
    Div,
}

/// Division that rounds toward zero.
pub open spec fn trunc_div(x: int, y: int) -> int {
    let q = (if x < 0 { -x } else { x }) / (if y < 0 { -y } else { y });
    if (x < 0) == (y < 0) {
        q
    } else {
        -q
    }
}

/// The exact result of `x op y` on integers; `None` for a zero divisor.
pub open spec fn exact(op: ArithOp, x: int, y: int) -> Option<int> {
    match op {
        ArithOp::Add => Some(x + y),
        ArithOp::Sub => Some(x - y),
        ArithOp::Mul => Some(x * y),
        ArithOp::Div => if y == 0 {
            None
        } else {
            Some(trunc_div(x, y))
        },
    }
}

/// `x op y` on `i64` values.
pub open spec fn int_op(op: ArithOp, x: i64, y: i64) -> Result<Value, EvalError> {
    match exact(op, x as int, y as int) {
        None => Err(EvalError::DivisionByZero),
        Some(v) => if i64::MIN <= v <= i64::MAX {
            Ok(Value::Int(v as i64))
        } else {
            Err(EvalError::Overflow)
        },
    }
}

/// A binary arithmetic operator applied to the outcomes of its operands: the
/// first error wins; otherwise both operands must be integers.
pub open spec fn arith(
    op: ArithOp,
    left: Result<Value, EvalError>,
    right: Result<Value, EvalError>,
) -> Result<Value, EvalError> {
    match left {
        Err(e) => Err(e),
        Ok(a) => match right {
            Err(e) => Err(e),
            Ok(b) => match (a, b) {
                (Value::Int(x), Value::Int(y)) => int_op(op, x, y),
                _ => Err(EvalError::TypeMismatch),
            },
        },
    }
}

/// An outcome that must be an integer, passed through unchanged.
pub open spec fn int_only(v: Result<Value, EvalError>) -> Result<Value, EvalError> {
    match v {
        Err(e) => Err(e),
        Ok(Value::Int(i)) => Ok(Value::Int(i)),
        Ok(_) => Err(EvalError::TypeMismatch),
    }
}

/// The negation of an outcome that must be an integer.
pub open spec fn negated(v: Result<Value, EvalError>) -> Result<Value, EvalError> {
    match v {
        Err(e) => Err(e),
        Ok(Value::Int(i)) => if i == i64::MIN {
            Err(EvalError::Overflow)
        } else {
            Ok(Value::Int((-i) as i64))
        },
        Ok(_) => Err(EvalError::TypeMismatch),
    }
}

/// The choice of a conditional: all three parts are evaluated, the first
/// error wins; otherwise the condition must be a boolean and both branches
/// integers.
pub open spec fn choice(
    c: Result<Value, EvalError>,
    a: Result<Value, EvalError>,
    b: Result<Value, EvalError>,
) -> Result<Value, EvalError> {
    match c {
        Err(e) => Err(e),
        Ok(cv) => match a {
            Err(e) => Err(e),
            Ok(av) => match b {
                Err(e) => Err(e),
                Ok(bv) => match (cv, av, bv) {
                    (Value::Bool(flag), Value::Int(x), Value::Int(y)) => Ok(
                        Value::Int(if flag { x } else { y }),
                    ),
                    _ => Err(EvalError::TypeMismatch),
                },
            },
        },
    }
}

/// The value of `e` when the variables are bound as in `env`.
pub open spec fn eval(e: Expr, env: Map<Seq<char>, Value>) -> Result<Value, EvalError>
    decreases e,
{
    match e {
        Expr::LiteralExpr(l) => match l {
            Literal::Bool(b) => Ok(Value::Bool(b)),
            Literal::Int(i) => Ok(Value::Int(i)),
            Literal::Char(c) => if is_digit(c) {
                Ok(Value::Int(digit_value(c) as i64))
            } else {
                Err(EvalError::InvalidCharLiteral(c))
            },
            Literal::String(s) => Ok(Value::String(s)),
            Literal::ID(name) => Ok(lookup(env, name@)),
        },
        Expr::UnaryExpr(u) => match u {
            Unary::Plus(x) => int_only(eval(*x, env)),
            Unary::Minus(x) => negated(eval(*x, env)),
            _ => Err(EvalError::UnsupportedOperator),
        },
        Expr::BinaryExpr(b) => match b {
            Binary::Plus(l, r) => arith(ArithOp::Add, eval(*l, env), eval(*r, env)),
            Binary::Minus(l, r) => arith(ArithOp::Sub, eval(*l, env), eval(*r, env)),
            Binary::Mul(l, r) => arith(ArithOp::Mul, eval(*l, env), eval(*r, env)),
            Binary::Div(l, r) => arith(ArithOp::Div, eval(*l, env), eval(*r, env)),
            _ => Err(EvalError::UnsupportedOperator),
        },
        Expr::GroupExpr(GroupExpr::GroupExpr(x)) => int_only(eval(*x, env)),
        Expr::TrinaryExpr(Trinary::TrinaryExpr(c, a, b)) => choice(
            eval(*c, env),
            eval(*a, env),
            eval(*b, env),
        ),
    }
}

/// The bindings after executing `s` under `env`. Only assignments act; the
/// other statements leave the bindings as they are.
pub open spec fn exec_stmt(s: Stmt, env: Map<Seq<char>, Value>) -> Result<
    Map<Seq<char>, Value>,
    EvalError,
> {
    match s {
        Stmt::Assign(target, value) => match *target {
            Expr::LiteralExpr(Literal::ID(name)) => match eval(*value, env) {
                Ok(v) => Ok(env.insert(name@, v)),
                Err(e) => Err(e),
            },
            _ => Err(EvalError::InvalidAssignmentTarget),
        },
        _ => Ok(env),
    }
}

/// The bindings after executing `stmts` in order under `env`, stopping at the
/// first error.
pub open spec fn exec_stmts(stmts: Seq<Stmt>, env: Map<Seq<char>, Value>) -> Result<
    Map<Seq<char>, Value>,
    EvalError,
>
    decreases stmts.len(),
{
    if stmts.len() == 0 {
        Ok(env)
    } else {
        match exec_stmts(stmts.drop_last(), env) {
            Ok(m) => exec_stmt(stmts.last(), m),
            Err(e) => Err(e),
        }
    }
}

/// `x / y`, rounding toward zero.
fn int_div(x: i64, y: i64) -> (r: i64)
    requires
        y != 0,
        !(x == i64::MIN && y == -1),
    ensures
        r == trunc_div(x as int, y as int),
{
    let ax: u64 = if x < 0 {
        (-(x as i128)) as u64
    } else {
        x as u64
    };
    let ay: u64 = if y < 0 {
        (-(y as i128)) as u64
    } else {
        y as u64
    };
    let q = ax / ay;
    assert(q <= ax) by (nonlinear_arith)
        requires
            ay >= 1,
            q == ax / ay,
    ;
    assert(ay >= 2 ==> q * 2 <= ax) by (nonlinear_arith)
        requires
            q == ax / ay,
    ;
    if (x < 0) == (y < 0) {
        q as i64
    } else {
        (-(q as i128)) as i64
    }
}

/// `x op y` on integers, with overflow and a zero divisor reported as errors.
fn apply_int(op: ArithOp, x: i64, y: i64) -> (r: Result<Value, EvalError>)
    ensures
        r == int_op(op, x, y),
{
    match op {
        ArithOp::Add => match x.checked_add(y) {
            Some(v) => Ok(Value::Int(v)),
            None => Err(EvalError::Overflow),
        },
        ArithOp::Sub => match x.checked_sub(y) {
            Some(v) => Ok(Value::Int(v)),
            None => Err(EvalError::Overflow),
        },
        ArithOp::Mul => match x.checked_mul(y) {
            Some(v) => Ok(Value::Int(v)),
            None => Err(EvalError::Overflow),
        },
        ArithOp::Div => {
            if y == 0 {
                Err(EvalError::DivisionByZero)
            } else if x == i64::MIN && y == -1 {
                assert(trunc_div(x as int, y as int) == i64::MAX + 1) by (nonlinear_arith)
                    requires
                        x == i64::MIN,
                        y == -1,
                ;
                Err(EvalError::Overflow)
            } else {
                let q = int_div(x, y);
                Ok(Value::Int(q))
            }
        },
    }
}

/// Applies `op` to the outcomes of its two operands.
fn combine(op: ArithOp, left: Result<Value, EvalError>, right: Result<Value, EvalError>) -> (r:
    Result<Value, EvalError>)
    ensures
        r == arith(op, left, right),
{
    match (left, right) {
        (Err(e), _) => Err(e),
        (Ok(_), Err(e)) => Err(e),
        (Ok(Value::Int(x)), Ok(Value::Int(y))) => apply_int(op, x, y),
        _ => Err(EvalError::TypeMismatch),
    }
}

/// Evaluates expressions and executes statements against a variable store.
pub struct Intepreter<E: Env> {
    pub env: E,
}

impl Intepreter<Local> {
    /// An interpreter over an empty flat store.
    pub fn new() -> (r: Intepreter<Local>)
        ensures
            r.env.wf(),
            r.env.bindings() == Map::<Seq<char>, Value>::empty(),
    {
        Intepreter { env: Local::new() }
    }
}

impl<E: Env> Intepreter<E> {
    /// Executes the statements of `unit` in order and stops at the first
    /// error; yields `Null` when all of them ran.
    pub fn inteprete(&mut self, unit: CompilationUnit) -> (r: Result<Value, EvalError>)
        requires
            old(self).env.wf(),
        ensures
            final(self).env.wf(),
            match exec_stmts(unit.stmts@, old(self).env.bindings()) {
                Ok(m) => r == Ok::<Value, EvalError>(Value::Null) && final(self).env.bindings() == m,
                Err(e) => r == Err::<Value, EvalError>(e),
            },
    {
        let ghost start = self.env.bindings();
        let ghost all = unit.stmts@;
        assert(all.subrange(0, 0) =~= Seq::<Stmt>::empty());
        for s in it: unit.stmts.into_iter()
            invariant
                self.env.wf(),
                it.seq() == all,
                start == old(self).env.bindings(),
                all == unit.stmts@,
                exec_stmts(all.subrange(0, it.index()), start) == Ok::<
                    Map<Seq<char>, Value>,
                    EvalError,
                >(self.env.bindings()),
        {
            let ghost i = it.index();
            assert(s == all[i]);
            assert(all.subrange(0, i + 1).drop_last() =~= all.subrange(0, i));
            let ghost before = self.env.bindings();
            match self.intepreter_stmt(s) {
                Ok(()) => {},
                Err(e) => {
                    proof {
                        assert(all.subrange(0, i + 1).last() == all[i]);
                        assert(exec_stmt(all[i], before) == Err::<Map<Seq<char>, Value>, EvalError>(e));
                        lemma_stops_at_error(all, i, start, e);
                    }
                    return Err(e);
                },
            }
        }
        assert(all.subrange(0, all.len() as int) =~= all);
        Ok(Value::Null)
    }

    /// Executes one statement.
    pub fn intepreter_stmt(&mut self, stmt: Stmt) -> (r: Result<(), EvalError>)
        requires
            old(self).env.wf(),
        ensures
            final(self).env.wf(),
            match exec_stmt(stmt, old(self).env.bindings()) {
                Ok(m) => r is Ok && final(self).env.bindings() == m,
                Err(e) => r == Err::<(), EvalError>(e) && final(self).env.bindings() == old(
                    self,
                ).env.bindings(),
            },
    {
        match stmt {
            Stmt::Assign(target, value) => {
                match *target {
                    Expr::LiteralExpr(Literal::ID(name)) => {
                        let v = self.inteprete_expr(*value);
                        match v {
                            Ok(v) => {
                                self.env.set(name.as_str(), v);
                                Ok(())
                            },
                            Err(e) => Err(e),
                        }
                    },
                    _ => Err(EvalError::InvalidAssignmentTarget),
                }
            },
            _ => Ok(()),
        }
    }

    /// Evaluates an expression; the store is left as it is.
    pub fn inteprete_expr(&mut self, expr: Expr) -> (r: Result<Value, EvalError>)
        requires
            old(self).env.wf(),
        ensures
            final(self).env == old(self).env,
            r == eval(expr, old(self).env.bindings()),
        decreases expr,
    {
        match expr {
            Expr::LiteralExpr(l) => match l {
                Literal::Bool(b) => Ok(Value::Bool(b)),
                Literal::Int(i) => Ok(Value::Int(i)),
                Literal::Char(c) => {
                    if '0' <= c && c <= '9' {
                        Ok(Value::Int((c as u32 - '0' as u32) as i64))
                    } else {
                        Err(EvalError::InvalidCharLiteral(c))
                    }
                },
                Literal::String(s) => Ok(Value::String(s)),
                Literal::ID(name) => Ok(self.env.get(name.as_str())),
            },
            Expr::UnaryExpr(u) => match u {
                Unary::Plus(x) => match self.inteprete_expr(*x) {
                    Ok(Value::Int(v)) => Ok(Value::Int(v)),
                    Ok(_) => Err(EvalError::TypeMismatch),
                    Err(e) => Err(e),
                },
                Unary::Minus(x) => match self.inteprete_expr(*x) {
                    Ok(Value::Int(v)) => {
                        if v == i64::MIN {
                            Err(EvalError::Overflow)
                        } else {
                            Ok(Value::Int(-v))
                        }
                    },
                    Ok(_) => Err(EvalError::TypeMismatch),
                    Err(e) => Err(e),
                },
                _ => Err(EvalError::UnsupportedOperator),
            },
            Expr::BinaryExpr(b) => match b {
                Binary::Plus(l, r) => {
                    let a = self.inteprete_expr(*l);
                    let b = self.inteprete_expr(*r);
                    combine(ArithOp::Add, a, b)
                },
                Binary::Minus(l, r) => {
                    let a = self.inteprete_expr(*l);
                    let b = self.inteprete_expr(*r);
                    combine(ArithOp::Sub, a, b)
                },
                Binary::Mul(l, r) => {
                    let a = self.inteprete_expr(*l);
                    let b = self.inteprete_expr(*r);
                    combine(ArithOp::Mul, a, b)
                },
                Binary::Div(l, r) => {
                    let a = self.inteprete_expr(*l);
                    let b = self.inteprete_expr(*r);
                    combine(ArithOp::Div, a, b)
                },
                _ => Err(EvalError::UnsupportedOperator),
            },
            Expr::GroupExpr(GroupExpr::GroupExpr(x)) => match self.inteprete_expr(*x) {
                Ok(Value::Int(v)) => Ok(Value::Int(v)),
                Ok(_) => Err(EvalError::TypeMismatch),
                Err(e) => Err(e),
            },
            Expr::TrinaryExpr(Trinary::TrinaryExpr(c, a, b)) => {
                let c = self.inteprete_expr(*c);
                let a = self.inteprete_expr(*a);
                let b = self.inteprete_expr(*b);
                match (c, a, b) {
                    (Err(e), _, _) => Err(e),
                    (Ok(_), Err(e), _) => Err(e),
                    (Ok(_), Ok(_), Err(e)) => Err(e),
                    (Ok(Value::Bool(flag)), Ok(Value::Int(x)), Ok(Value::Int(y))) => {
                        if flag {
                            Ok(Value::Int(x))
                        } else {
                            Ok(Value::Int(y))
                        }
                    },
                    _ => Err(EvalError::TypeMismatch),
                }
            },
        }
    }
}

proof fn lemma_stops_at_error(
    all: Seq<Stmt>,
    i: int,
    env: Map<Seq<char>, Value>,
    e: EvalError,
)
    requires
        0 <= i < all.len(),
        exec_stmts(all.subrange(0, i + 1), env) == Err::<Map<Seq<char>, Value>, EvalError>(e),
    ensures
        exec_stmts(all, env) == Err::<Map<Seq<char>, Value>, EvalError>(e),
    decreases all.len() - i,
{
    if i + 1 < all.len() {
        assert(all.subrange(0, i + 2).drop_last() =~= all.subrange(0, i + 1));
        lemma_stops_at_error(all, i + 1, env, e);
    } else {
        assert(all.subrange(0, i + 1) =~= all);
    }
}

} // verus!
