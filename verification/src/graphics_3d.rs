//! Screen operations of the 3D renderer.
use vstd::prelude::*;
use crate::screen::{Screen, blank_cells, screen_frame, screen_frame_text, clear_screen, pixel_char};

verus! {

/// The text to print for the current frame; the screen is then blanked
/// for the next one. The pixel byte is kept.
pub fn refresh(screen: &mut Screen) -> (out: Vec<char>)
    requires
        old(screen).wf(),
    ensures
        out@ == screen_frame(old(screen).cells()),
        final(screen).wf(),
        final(screen).cells() == blank_cells(),
        final(screen).pixel() == old(screen).pixel(),
{
    let out = screen_frame_text(screen);
    clear_screen(screen);
    out
}

/// Change the byte that drawing operations paint with.
pub fn set_pixel_char(screen: &mut Screen, chr: u8)
    ensures
        final(screen).cells() == old(screen).cells(),
        final(screen).pixel() == chr,
{
    pixel_char(screen, chr);
}

} // verus!
