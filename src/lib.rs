//! An interactive command shell's parsing and dispatch core: a quote-aware
//! tokenizer, a redirection scanner, command dispatch over a resolved search
//! path, and the pure decisions of the executor and the line editor.

pub mod lexer;
pub mod redirect;
pub mod command;
pub mod path;
pub mod quoting;
pub mod editor;
