//! The syntax tree that a parser builds from the token stream.

use vstd::prelude::*;

verus! {

/// A node of the syntax tree.
pub trait Node {
    /// The text of the token that the node begins with.
    spec fn literal(&self) -> Seq<char>;

    /// Returns the text of the token that the node begins with.
    fn token_literal(&self) -> (text: String)
        ensures
            text@ == self.literal(),
    ;
}

/// Root node of every AST that parser produces
pub struct Program {
    pub statements: Vec<Box<dyn Node>>,
}

impl Node for Program {
    /// A program begins with the token of its first statement; an empty
    /// program has no text.
    open spec fn literal(&self) -> Seq<char> {
        if self.statements@.len() == 0 {
            Seq::empty()
        } else {
            self.statements@[0].literal()
        }
    }

    fn token_literal(&self) -> (text: String) {
        if self.statements.is_empty() {
            String::new()
        } else {
            self.statements[0].token_literal()
        }
    }
}

/// The syntax tree of a program.
pub struct AST {}

} // verus!
