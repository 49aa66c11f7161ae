//! A lexer for a small propositional-logic notation: each character of the
//! input becomes one token, tagged with the character range it occupies.
pub mod laws;
pub mod tokenizer;
