use vstd::prelude::*;

use crate::expr::{Expr, Literal};
use crate::stmt::Stmt;
use crate::token::{Token, TokenView};
use crate::tokenizer::{lex_next, LexError, Tokenizer};

verus! {

/// Why no statement could be read.
#[derive(Debug, PartialEq)]
pub enum ParseError {
    /// The tokenizer failed.
    Lex(LexError),
    /// A token that starts no statement yet.
    UnsupportedToken(Token),
}

/// The statement a literal expression forms.
pub open spec fn is_literal_stmt(s: Stmt, l: Literal) -> bool {
    s matches Stmt::Expr(e) && *e == Expr::LiteralExpr(l)
}

/// What one call of `Parser::next` returns, given the outcome of lexing the
/// next token: end of input ends the statements; integer, character and
/// string tokens become expression statements; any other token is refused.
pub open spec fn parsed(lexed: Result<TokenView, LexError>, r: Option<Result<Stmt, ParseError>>) -> bool {
    match lexed {
        Err(e) => r == Some(Err::<Stmt, ParseError>(ParseError::Lex(e))),
        Ok(TokenView::Plain(Token::EOF)) => r is None,
        Ok(TokenView::Plain(Token::Int64(_, i))) => r matches Some(Ok(s)) && is_literal_stmt(
            s,
            Literal::Int(i),
        ),
        Ok(TokenView::Plain(Token::Char(_, c))) => r matches Some(Ok(s)) && is_literal_stmt(
            s,
            Literal::Char(c),
        ),
        Ok(TokenView::Str(_, text)) => r matches Some(Ok(s)) && (s matches Stmt::Expr(e) && (
        *e matches Expr::LiteralExpr(Literal::String(t)) && t@ == text)),
        Ok(v) => r matches Some(Err(ParseError::UnsupportedToken(t))) && t@ == v,
    }
}

/// Reads statements from source text, one per call of `next`.
pub struct Parser {
    tokens: Tokenizer,
}

impl Parser {
    pub closed spec fn wf(&self) -> bool {
        self.tokens.wf()
    }

    /// The input, as characters.
    pub closed spec fn text(&self) -> Seq<char> {
        self.tokens.text()
    }

    /// How many characters of the input are consumed.
    pub closed spec fn offset(&self) -> int {
        self.tokens.offset()
    }

    pub fn new(input: &str) -> (r: Parser)
        requires
            input@.len() < i32::MAX,
        ensures
            r.wf(),
            r.text() == input@,
            r.offset() == 0,
    {
        let tokenizer = Tokenizer::new(input);
        Parser { tokens: tokenizer }
    }

    /// The next statement; `None` at the end of the input.
    pub fn next(&mut self) -> (r: Option<Result<Stmt, ParseError>>)
        requires
            old(self).wf(),
        ensures
            final(self).wf(),
            final(self).text() == old(self).text(),
            final(self).offset() == lex_next(old(self).text(), old(self).offset()).1,
            parsed(lex_next(old(self).text(), old(self).offset()).0, r),
    {
        match self.tokens.next() {
            Err(e) => Some(Err(ParseError::Lex(e))),
            Ok(Token::EOF) => None,
            Ok(Token::Int64(_, i)) => Some(Ok(Stmt::Expr(Box::new(Expr::LiteralExpr(Literal::Int(i)))))),
            Ok(Token::String(_, s)) => Some(
                Ok(Stmt::Expr(Box::new(Expr::LiteralExpr(Literal::String(s))))),
            ),
            Ok(Token::Char(_, c)) => Some(Ok(Stmt::Expr(Box::new(Expr::LiteralExpr(Literal::Char(c)))))),
            Ok(t) => Some(Err(ParseError::UnsupportedToken(t))),
        }
    }
}

} // verus!
