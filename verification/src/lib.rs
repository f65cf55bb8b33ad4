//! Core of an interactive terminal chat client: the conversation transcript,
//! the modal input state machine, the session controller that multiplexes
//! keystrokes and asynchronous gateway replies, and the render adapter that
//! turns the session state into a layout of display lines.
//!
//! Everything here is pure state manipulation. Reading the keyboard, drawing
//! the screen and talking to the remote gateway over the network live outside
//! this crate; they hand plain values in and take plain values back.

pub mod chat;
pub mod gemini;
pub mod input;
pub mod laws;
pub mod message;
pub mod render;
pub mod session;
mod text;
