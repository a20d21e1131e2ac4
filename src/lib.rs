//! A small language for scripted, multi-channel synthesized audio: a tokenizer,
//! a song grammar with an arithmetic expression sub-language, and the
//! integer-level decisions of the generation engine.
pub mod expr;
pub mod parser;
pub mod printing;
pub mod result;
pub mod song;
pub mod source;
pub mod text;
pub mod tokenizer;
pub mod wav;
