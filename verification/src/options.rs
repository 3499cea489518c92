use vstd::prelude::*;
use crate::text::TextRendering;

verus! {

/// What a caller may set.
#[derive(Debug)]
pub struct Options {
    /// Drop NUL characters from the input rather than fail on them.
    pub forgiving: bool,
    /// The rendering hint of text that names none.
    pub text_rendering: TextRendering,
    /// The font family of text that names none.
    pub font_family: String,
}

} // verus!
