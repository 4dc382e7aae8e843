use vstd::prelude::*;

use crate::token::Token;

verus! {

/// A sequence of tokens.
#[derive(Debug, Default, PartialEq)]
pub struct TokenStream {
    tokens: Vec<Token>,
}

impl TokenStream {
    /// The tokens held, in order.
    pub closed spec fn contents(&self) -> Seq<Token> {
        self.tokens@
    }

    pub fn tokens(&self) -> (r: &Vec<Token>)
        ensures
            r@ == self.contents(),
    {
        &self.tokens
    }
}

} // verus!
