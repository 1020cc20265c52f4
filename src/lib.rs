//! A tree of named nodes, each driving one behavior, updated once per tick.
//! Behaviors may answer with a message that mutates their own node or bubbles
//! one level up to the enclosing node. What the mutations print is written to
//! a console, a list of texts that the caller shows.
pub mod behavior;
pub mod laws;
pub mod message;
pub mod node;
pub mod printer;
pub mod tick;
pub mod typed;
