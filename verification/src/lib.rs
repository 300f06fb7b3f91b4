//! A character-by-character markup tokenizer in the style of the HTML
//! tokenization algorithm, with machine-checked contracts.
//!
//! The `html` module holds the token data model, the mathematical state
//! machine that defines tokenization, the executable lexer proved to follow
//! that machine, and the skeleton of a tree builder around it.
pub mod html;
