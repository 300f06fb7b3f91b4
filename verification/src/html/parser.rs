//! The tree-construction skeleton around the lexer.
//!
//! Tree construction is out of scope here: `parse` only sets up the document
//! root that a full tree builder would fill from the token stream, leaving
//! the lexer and the open-node stack exactly as they were.
use vstd::prelude::*;

use crate::html::lexer::Lexer;
use crate::html::machine::{init_view, LexerView};
use crate::html::node::{document, Node, NodeType};

verus! {

/// A parser: an open-node stack and the lexer it pulls tokens from.
pub struct Parser {
    stack: Vec<Node>,
    lexer: Lexer,
}

impl Parser {
    /// The open-node stack.
    pub closed spec fn stack_model(&self) -> Seq<Node> {
        self.stack@
    }

    /// The state of the underlying lexer.
    pub closed spec fn lexer_model(&self) -> LexerView {
        self.lexer@
    }

    /// A parser over the given input: an empty stack and a fresh lexer.
    pub fn new(input: String) -> (p: Parser)
        ensures
            p.stack_model() == Seq::<Node>::empty(),
            p.lexer_model() == init_view(input@),
    {
        Parser { stack: Vec::new(), lexer: Lexer::new(input) }
    }

    /// Produce the document root node. The stack and the lexer are left
    /// unchanged; filling the tree from the token stream is the (external)
    /// tree builder's job.
    pub fn parse(&mut self, _text: String) -> (n: Node)
        ensures
            final(self).stack_model() == old(self).stack_model(),
            final(self).lexer_model() == old(self).lexer_model(),
            n.children@.len() == 0,
            n.node_type is Document,
    {
        self.stack.push(document(Vec::new()));
        let popped = self.stack.pop();
        proof {
            assert(self.stack@ =~= old(self).stack@);
        }
        match popped {
            None => document(Vec::new()),
            Some(value) => value,
        }
    }
}

} // verus!
