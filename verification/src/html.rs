//! Markup processing: tokens, the tokenizer state machine, the lexer that
//! drives it, and the document node model consumed by tree construction.
pub mod laws;
pub mod lexer;
pub mod machine;
pub mod node;
pub mod parser;
pub mod tokens;
