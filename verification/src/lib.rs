//! A minimal postfix ("reverse Polish") expression interpreter.
//!
//! A program is tokenized into numbers, identifiers and the two markers
//! `$` (value-of) and `:` (assign), and then evaluated against a stack
//! machine with a variable table and a fixed set of built-in operations.
//!
//! Numbers are kept opaque: the machine moves 64-bit payloads around and
//! asks its host, through [`machine::Request`], to parse literal text and
//! to apply the arithmetic of each built-in. Every decision the machine
//! itself takes — token dispatch, the one-token lookahead after `$` and
//! `:`, stack discipline, variable binding, argument indexing and the
//! error policy — is verified against the transition function
//! [`machine::machine_next`], and the tokenizer against the grammar in
//! [`lexer`]. The laws the interpreter obeys are proved in [`laws`].

pub mod token;

pub mod lexer;

pub mod vars;

pub mod builtins;

pub mod numeral;

pub mod machine;

pub mod laws;
