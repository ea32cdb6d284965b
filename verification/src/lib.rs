//! A resilient parsing engine for a JavaScript-family grammar.
//!
//! The parser reads a stream of tokens and records the tree it builds as a flat
//! buffer of events. It does not stop at a syntax error: it reports a diagnostic,
//! fills the slot of what is missing, keeps what fits no rule, and goes on. So every
//! parse ends, consumes every token, and leaves a buffer whose nodes are all closed
//! and whose leaves are the tokens of the source.
//!
//! * [`event`] is the buffer and its mathematical reading;
//! * [`parser`] holds the cursor, the buffer, the diagnostics and the state, with the
//!   markers that open and close nodes and the checkpoints that undo an attempt;
//! * [`parsed_syntax`] is the result of a rule and the combinators that decide what a
//!   missing or invalid result becomes;
//! * [`speculative`] tries a rule and rewinds if it was the wrong one;
//! * [`state`] is the context that rules consult;
//! * [`tree`] reads a finished buffer as a tree;
//! * [`syntax`] holds the grammar rules;
//! * [`formatter`] walks a tree and says how its nodes are laid out.

pub mod diagnostic;
pub mod event;
pub mod feature;
pub mod formatter;
pub mod parsed_syntax;
pub mod parser;
pub mod recovery;
pub mod speculative;
pub mod state;
pub mod syntax;
pub mod syntax_kind;
pub mod token;
pub mod tree;
