use vstd::prelude::*;

use crate::expr::{Expr, Literal};
use crate::stmt::CompilationUnit;
use crate::types::Type;

verus! {

/// The types bound to names.
pub struct TypingEnv {
    symbols: Vec<(String, Type)>,
}

impl TypingEnv {
    /// The number of names bound.
    pub closed spec fn size(&self) -> nat {
        self.symbols@.len()
    }

    pub fn new() -> (r: TypingEnv)
        ensures
            r.size() == 0,
    {
        TypingEnv { symbols: Vec::new() }
    }
}

/// Why an expression has no inferred type.
#[derive(Debug, PartialEq, Eq, Structural, Clone, Copy)]
pub enum TypeError {
    /// The type of an identifier is not inferred.
    UntypedIdentifier,
    /// Only literal expressions have inferred types.
    UnsupportedExpression,
}

/// The inferred type of an expression: literals only.
pub open spec fn literal_type(e: Expr) -> Result<Type, TypeError> {
    match e {
        Expr::LiteralExpr(l) => match l {
            Literal::Bool(_) => Ok(Type::Bool),
            Literal::Int(_) => Ok(Type::Int),
            Literal::Char(_) => Ok(Type::Char),
            Literal::String(_) => Ok(Type::String),
            Literal::ID(_) => Err(TypeError::UntypedIdentifier),
        },
        _ => Err(TypeError::UnsupportedExpression),
    }
}

pub struct TypeChecker {
    env: TypingEnv,
}

impl TypeChecker {
    /// The number of names the checker has types for.
    pub closed spec fn known_names(&self) -> nat {
        self.env.size()
    }

    pub fn new() -> (r: TypeChecker)
        ensures
            r.known_names() == 0,
    {
        TypeChecker { env: TypingEnv::new() }
    }

    pub fn type_check_expr(&mut self, expr: &Expr) -> (r: Result<Type, TypeError>)
        ensures
            r == literal_type(*expr),
    {
        match expr {
            Expr::LiteralExpr(le) => match le {
                Literal::Bool(_) => Ok(Type::Bool),
                Literal::ID(_) => Err(TypeError::UntypedIdentifier),
                Literal::Char(_) => Ok(Type::Char),
                Literal::Int(_) => Ok(Type::Int),
                Literal::String(_) => Ok(Type::String),
            },
            _ => Err(TypeError::UnsupportedExpression),
        }
    }

    /// Checks a whole unit. Statement-level checking is not implemented, so
    /// every unit is accepted.
    pub fn type_check(&mut self, ast: CompilationUnit) -> (r: Option<TypeError>)
        ensures
            r is None,
    {
        None
    }
}

} // verus!
