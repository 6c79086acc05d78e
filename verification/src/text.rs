//! A piece of text waiting to be drawn onto a framebuffer.
//!
//! Rasterizing the glyphs is the job of an outside font service; this
//! crate only carries the text itself.

use vstd::prelude::*;

verus! {

/// A string destined for the textual overlay.
#[derive(Clone, Debug, PartialEq, Eq)]
pub struct Text(pub String);

impl Text {
    /// Wraps a string for drawing.
    pub fn new(text: String) -> (t: Text)
        ensures
            t.0@ == text@,
    {
        Text(text)
    }
}

} // verus!
