//! The transport line framer: commands go out as one ASCII line
//! terminated by a carriage return; responses are accumulated byte by
//! byte until the carriage return arrives or the caller's read window
//! closes, with line feeds dropped on the way.
//!
//! The framer itself never touches the byte stream: the caller reads
//! single bytes and feeds them in, then takes the finished line.

use vstd::prelude::*;
use vstd::string::*;
use crate::strutil::{push_char, trim, trim_spec};

verus! {

/// Accumulates one response line from a byte stream.
pub struct ResponseFramer {
    pub buf: String,
    pub complete: bool,
}

/// Ghost model of a [`ResponseFramer`]: the characters gathered so far
/// and whether the terminator has been seen.
pub struct FramerModel {
    pub line: Seq<char>,
    pub complete: bool,
}

impl View for ResponseFramer {
    type V = FramerModel;

    open spec fn view(&self) -> FramerModel {
        FramerModel { line: self.buf@, complete: self.complete }
    }
}

/// How one received byte advances the framer: nothing once the line is
/// complete; a carriage return completes it; a line feed is silently
/// dropped; every other byte is appended as the character it encodes.
pub open spec fn framer_step(m: FramerModel, b: u8) -> FramerModel {
    if m.complete {
        m
    } else if b == 13 {
        FramerModel { line: m.line, complete: true }
    } else if b == 10 {
        m
    } else {
        FramerModel { line: m.line.push(b as char), complete: false }
    }
}

impl ResponseFramer {
    /// An empty, incomplete line.
    pub fn new() -> (r: Self)
        ensures
            r@ == (FramerModel { line: Seq::<char>::empty(), complete: false }),
    {
        ResponseFramer { buf: String::new(), complete: false }
    }

    /// Feeds one received byte, exactly as [`framer_step`] describes.
    pub fn push_byte(&mut self, b: u8)
        ensures
            final(self)@ == framer_step(old(self)@, b),
    {
        if self.complete {
            return ;
        }
        if b == 13 {
            self.complete = true;
        } else if b != 10 {
            push_char(&mut self.buf, b as char);
        }
    }

    /// Whether the carriage-return terminator has been seen.
    pub fn is_complete(&self) -> (r: bool)
        ensures
            r == self@.complete,
    {
        self.complete
    }

    /// The accumulated line, trimmed of leading and trailing whitespace.
    /// A line cut short by a read timeout is returned the same way: an
    /// answer that never came yields the empty string, not an error.
    pub fn line(&self) -> (r: String)
        ensures
            r@ == trim_spec(self@.line),
    {
        trim(self.buf.as_str())
    }
}

/// Frames an outgoing command: the command text with the single
/// carriage-return terminator appended.
pub fn frame_command(cmd: &str) -> (r: String)
    ensures
        r@ == cmd@.push('\r'),
{
    let mut out = String::from_str(cmd);
    push_char(&mut out, '\r');
    out
}

} // verus!
