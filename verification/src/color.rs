//! The colors of a visual theme.

use vstd::prelude::*;

verus! {

/// The colors that the interpreter stamps on text, each `0xRRGGBB`.
#[derive(Clone, Copy, Debug, PartialEq, Eq, Structural)]
pub struct Theme {
    pub text_color: u32,
    pub link_color: u32,
    pub code_color: u32,
}

impl Theme {
    /// Light text for a dark background.
    pub fn dark_default() -> (t: Theme)
        ensures
            t == (Theme { text_color: 0x9DACBB, link_color: 0x4182EB, code_color: 0xB38FAC }),
    {
        Theme { text_color: 0x9DACBB, link_color: 0x4182EB, code_color: 0xB38FAC }
    }
}

} // verus!
