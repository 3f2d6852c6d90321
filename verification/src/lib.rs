//! Lexical scanner for the Yo scripting language.
//!
//! [`lexer::Lexer`] walks a source text and yields one [`token::Token`] per
//! request. What it yields is defined in [`grammar`] as a function of the text
//! and the cursor's offset, and every request is proved to return exactly
//! that. [`stream`] states what repeated requests amount to.

pub mod ast;
pub mod chars;
pub mod decimal;
pub mod grammar;
pub mod lexer;
pub mod stream;
pub mod token;
