//! A compiler for the Shakespeare Programming Language: a play, given as a
//! sequence of tokens, is compiled into a structured program whose scenes
//! hold the statements that the play's lines stand for.

pub mod text;
pub mod token;
pub mod lexicon;
pub mod roman;
pub mod program;
pub mod expression;
pub mod state;
pub mod statement;
pub mod play;
pub mod outline;
pub mod laws;
pub mod vocabulary;
