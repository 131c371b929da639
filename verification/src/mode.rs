//! Display timings.

use vstd::prelude::*;

verus! {

/// Resolution and timing of a display mode, field for field as the kernel
/// reports it. Two modes are the same mode only if every field agrees.
#[derive(Clone, Copy, Debug, PartialEq, Eq, Hash)]
pub struct Mode {
    /// Name of the mode, zero-padded.
    pub name: [u8; 32],
    /// Pixel clock in kHz.
    pub clock: u32,
    pub hdisplay: u16,
    pub hsync_start: u16,
    pub hsync_end: u16,
    pub htotal: u16,
    pub hskew: u16,
    pub vdisplay: u16,
    pub vsync_start: u16,
    pub vsync_end: u16,
    pub vtotal: u16,
    pub vscan: u16,
    /// Vertical refresh rate in Hz.
    pub vrefresh: u32,
    pub flags: u32,
    pub mode_type: u32,
}

impl Mode {
    /// Width and height of the visible area, in pixels.
    pub fn size(&self) -> (dims: (u16, u16))
        ensures
            dims == (self.hdisplay, self.vdisplay),
    {
        (self.hdisplay, self.vdisplay)
    }

    /// Vertical refresh rate in Hz.
    pub fn vrefresh(&self) -> (hz: u32)
        ensures
            hz == self.vrefresh,
    {
        self.vrefresh
    }

    /// Compares two modes field by field.
    pub fn equals(&self, other: &Mode) -> (same: bool)
        ensures
            same == (*self == *other),
    {
        let mut i: usize = 0;
        while i < 32
            invariant
                i <= 32,
                forall|j: int| 0 <= j < i ==> self.name@[j] == other.name@[j],
            decreases 32 - i,
        {
            if self.name[i] != other.name[i] {
                return false;
            }
            i += 1;
        }
        proof {
            assert(self.name == other.name);
        }
        self.clock == other.clock && self.hdisplay == other.hdisplay && self.hsync_start
            == other.hsync_start && self.hsync_end == other.hsync_end && self.htotal == other.htotal
            && self.hskew == other.hskew && self.vdisplay == other.vdisplay && self.vsync_start
            == other.vsync_start && self.vsync_end == other.vsync_end && self.vtotal == other.vtotal
            && self.vscan == other.vscan && self.vrefresh == other.vrefresh && self.flags
            == other.flags && self.mode_type == other.mode_type
    }
}

/// Compares two optional modes: both absent, or both present and the same.
pub fn same_mode(a: &Option<Mode>, b: &Option<Mode>) -> (same: bool)
    ensures
        same == (*a == *b),
{
    match (a, b) {
        (None, None) => true,
        (Some(x), Some(y)) => x.equals(y),
        _ => false,
    }
}

} // verus!
