//! A modal line-editor engine.
//!
//! The engine turns input events into bounded changes of a text buffer, a
//! cursor and a scrolling viewport, gated by an editing mode. Every function
//! carries a contract over a mathematical model of the data it touches, and
//! every contract is machine-checked.

pub mod app;
pub mod buffer;
pub mod cmd_dispatcher;
pub mod cursor;
pub mod executor;
pub mod highlighter;
pub mod input_handler;
pub mod renderer;
pub mod state;
