use vstd::prelude::*;

use crate::attr::Attr;

verus! {

/// A classified lexical unit, stamped with the source range it came from.
#[derive(Debug, PartialEq)]
pub enum Token {
    Illegal,

    /// `'a'`
    Char(Attr, char),
    /// `true`, `false`
    Bool(Attr, bool),
    /// `3`
    Int8(Attr, i8),
    Int16(Attr, i16),
    Int32(Attr, i32),
    Int64(Attr, i64),
    /// `"abc"`, and words that are not keywords
    String(Attr, String),
    /// keywords
    ID(Attr, String),

    /// `(`
    LParen(Attr),
    /// `)`
    RParen(Attr),
    /// `{`
    LBrace(Attr),
    /// `}`
    RBrace(Attr),
    /// `[`
    LBraket(Attr),
    /// `]`
    RBraket(Attr),
    /// `?`
    QuestionMark(Attr),
    /// `#`
    Hash(Attr),
    /// `.`
    Dot(Attr),
    /// `->`
    Arrow(Attr),
    /// `++`
    Incr(Attr),
    /// `+`
    Plus(Attr),
    /// `-`
    Minus(Attr),
    /// `*`
    Mul(Attr),
    /// `/`
    Div(Attr),
    /// `<`
    Lt(Attr),
    /// `>`
    Gt(Attr),
    /// `<=`
    Lte(Attr),
    /// `<<`
    LShift(Attr),
    /// `>=`
    Gte(Attr),
    /// `>>`
    RShift(Attr),
    /// `!`
    Not(Attr),

    Typedef(Attr),
    Struct(Attr),
    Enum(Attr),
    If(Attr),
    Else(Attr),
    While(Attr),
    Return(Attr),

    EOF,
}

/// The mathematical view of a token: text-carrying tokens hold their text as
/// a sequence of characters; every other token stands for itself.
pub enum TokenView {
    Plain(Token),
    Str(Attr, Seq<char>),
    Id(Attr, Seq<char>),
}

impl View for Token {
    type V = TokenView;

    open spec fn view(&self) -> TokenView {
        match self {
            Token::String(a, s) => TokenView::Str(*a, s@),
            Token::ID(a, s) => TokenView::Id(*a, s@),
            _ => TokenView::Plain(*self),
        }
    }
}

} // verus!
