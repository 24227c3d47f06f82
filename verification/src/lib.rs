//! Control-client core for a handheld radio scanner that speaks a
//! line-oriented ASCII command/response protocol over a serial link.
//!
//! The crate holds the protocol engine: the codec for the scanner's
//! positional comma-delimited messages, the transport line framer, the
//! in-memory device state with its fetch scheduler, and the mode/edit
//! state machine that decides which commands to send for each user event.
//! All I/O (the serial port, the terminal, the command line) lives outside
//! this crate and exchanges plain strings and bytes with it.

pub mod cli;
pub mod codec;
pub mod console;
pub mod framer;
pub mod laws;
pub mod strutil;
pub mod types;
