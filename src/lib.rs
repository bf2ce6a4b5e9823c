//! Random generation of grammatical sentences from structure templates and a
//! tagged lexicon.
//!
//! A [`grammar::Grammar`] holds the lexicon and, for each category (noun
//! phrase, verb phrase, sentence), its structures: sequences of slot tokens.
//! Generating a category draws one of its structures and expands each slot
//! in order, into a word drawn from the lexicon or into a phrase of another
//! category.

pub mod defaults_parser;
pub mod grammar;
pub mod laws;
pub mod menu;
pub mod phrase;
mod random;
pub mod sentence;
pub mod sources;
pub mod text;
pub mod word;
