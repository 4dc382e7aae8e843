use vstd::prelude::*;

use crate::decimal::{decimal, push_decimal};
use crate::text::push_str;

verus! {

/// An operand of a three-address instruction.
#[derive(Debug, PartialEq)]
pub enum Operand {
    Variable(String),
    Constant(i64),
    Label(String),
}

/// The binary operators of three-address code.
#[derive(Debug, PartialEq, Eq, Structural, Clone, Copy)]
pub enum Operator {
    Add,
    Sub,
    Mul,
    Div,
    Mod,
    Eq,
    Neq,
    Lt,
    Gt,
    Lte,
    Gte,
    And,
    Or,
}

/// A three-address instruction: at most one operator per instruction.
#[derive(Debug, PartialEq)]
pub enum Instruction {
    /// `x = y`
    Assign1 { lhs: Operand, rhs: Option<Operand> },
    /// `x = y op z`
    Assign2 { lhs: Operand, rhs1: Operand, op: Operator, rhs2: Operand },
    /// `Ifz x Goto L`
    Ifz { condition: Operand, target: Operand },
}

pub open spec fn operator_text(op: Operator) -> Seq<char> {
    match op {
        Operator::Add => "+"@,
        Operator::Sub => "-"@,
        Operator::Mul => "*"@,
        Operator::Div => "/"@,
        Operator::Mod => "%"@,
        Operator::Eq => "=="@,
        Operator::Neq => "!="@,
        Operator::Lt => "<"@,
        Operator::Gt => ">"@,
        Operator::Lte => "<="@,
        Operator::Gte => ">="@,
        Operator::And => "&&"@,
        Operator::Or => "||"@,
    }
}

pub open spec fn operand_text(o: Operand) -> Seq<char> {
    match o {
        Operand::Variable(v) => v@,
        Operand::Constant(c) => decimal(c as int),
        Operand::Label(l) => l@,
    }
}

/// A value operand: a variable or a constant.
pub open spec fn is_value(o: Operand) -> bool {
    o is Variable || o is Constant
}

/// The shapes an instruction can take: assignments write a variable from
/// values, and a conditional jump tests a variable and names a label.
pub open spec fn well_formed(i: Instruction) -> bool {
    match i {
        Instruction::Assign1 { lhs, rhs } => lhs is Variable && rhs is Some && is_value(
            rhs->Some_0,
        ),
        Instruction::Assign2 { lhs, rhs1, op, rhs2 } => lhs is Variable && is_value(rhs1)
            && is_value(rhs2),
        Instruction::Ifz { condition, target } => condition is Variable && target is Label,
    }
}

/// The text of a well-formed instruction.
pub open spec fn render_instruction(i: Instruction) -> Seq<char> {
    match i {
        Instruction::Assign1 { lhs, rhs } => operand_text(lhs) + " = "@ + operand_text(
            rhs->Some_0,
        ),
        Instruction::Assign2 { lhs, rhs1, op, rhs2 } => operand_text(lhs) + " = "@ + operand_text(
            rhs1,
        ) + " "@ + operator_text(op) + " "@ + operand_text(rhs2),
        Instruction::Ifz { condition, target } => "Ifz "@ + operand_text(condition) + " Goto "@
            + operand_text(target),
    }
}

impl Operator {
    fn text(&self) -> (r: &'static str)
        ensures
            r@ == operator_text(*self),
    {
        match self {
            Operator::Add => "+",
            Operator::Sub => "-",
            Operator::Mul => "*",
            Operator::Div => "/",
            Operator::Mod => "%",
            Operator::Eq => "==",
            Operator::Neq => "!=",
            Operator::Lt => "<",
            Operator::Gt => ">",
            Operator::Lte => "<=",
            Operator::Gte => ">=",
            Operator::And => "&&",
            Operator::Or => "||",
        }
    }
}

impl Operand {
    fn render_into(&self, s: &mut String)
        ensures
            final(s)@ == old(s)@ + operand_text(*self),
    {
        match self {
            Operand::Variable(v) => push_str(s, v.as_str()),
            Operand::Constant(c) => push_decimal(s, *c),
            Operand::Label(l) => push_str(s, l.as_str()),
        }
    }
}

impl Instruction {
    pub fn to_string(&self) -> (r: String)
        requires
            well_formed(*self),
        ensures
            r@ == render_instruction(*self),
    {
        let mut s = String::new();
        match self {
            Instruction::Assign1 { lhs, rhs } => {
                lhs.render_into(&mut s);
                push_str(&mut s, " = ");
                match rhs {
                    Some(r) => r.render_into(&mut s),
                    None => {},
                }
            },
            Instruction::Assign2 { lhs, rhs1, op, rhs2 } => {
                lhs.render_into(&mut s);
                push_str(&mut s, " = ");
                rhs1.render_into(&mut s);
                push_str(&mut s, " ");
                push_str(&mut s, op.text());
                push_str(&mut s, " ");
                rhs2.render_into(&mut s);
            },
            Instruction::Ifz { condition, target } => {
                push_str(&mut s, "Ifz ");
                condition.render_into(&mut s);
                push_str(&mut s, " Goto ");
                target.render_into(&mut s);
            },
        }
        assert(s@ =~= render_instruction(*self));
        s
    }
}

} // verus!
