use vstd::prelude::*;

use crate::expr::Expr;
use crate::text::push_str;
use crate::types::Type;

verus! {

/// A preprocessor directive.
#[derive(PartialEq, Debug)]
pub enum Directive {
    Include(String),
    PragmaOnce,
}

/// A declaration; carried as data, not interpreted.
#[derive(PartialEq, Debug)]
pub enum Declare {
    DeclareIdentifier(String, Type, Option<Expr>),
    DeclareFunction {
        name: String,
        parameters: Vec<(String, Type)>,
        return_type: Type,
        body: Vec<Stmt>,
    },
    DeclareVector(String, Type, i32),
    DeclarePointer(String, Type),
    DeclareStruct(String, Vec<(String, Type)>),
    DeclareUnion(String, Vec<(String, Type)>),
    DeclareEnum(String, Vec<(String, Option<i32>)>),
    DeclareTypedef(String, Type),
}

/// The text of a declaration. Only identifier declarations have a rendering
/// so far; every other kind renders as a fixed notice.
pub open spec fn render_declare(d: Declare) -> Seq<char> {
    match d {
        Declare::DeclareIdentifier(name, _, _) => "int "@ + name@,
        _ => "not implemented yet"@,
    }
}

impl Declare {
    pub fn to_string(&self) -> (r: String)
        ensures
            r@ == render_declare(*self),
    {
        let mut s = String::new();
        match self {
            Declare::DeclareIdentifier(name, _, _) => {
                push_str(&mut s, "int ");
                push_str(&mut s, name.as_str());
            },
            _ => {
                push_str(&mut s, "not implemented yet");
            },
        }
        assert(s@ =~= render_declare(*self));
        s
    }
}

/// A statement.
#[derive(PartialEq, Debug)]
pub enum Stmt {
    /// `1 + 1`
    Expr(Box<Expr>),
    Directive(Directive),
    /// `a = b`
    Assign(Box<Expr>, Box<Expr>),
    /// `return a`
    Return(Box<Expr>),
    /// `{ a = 1; return a; }`
    Block(Vec<Stmt>),
    /// `int a;`
    Declare(Declare),
}

/// The statements of one source file, in order.
pub struct CompilationUnit {
    pub stmts: Vec<Stmt>,
}

} // verus!
