//! Panel geometry and orientation.

use vstd::prelude::*;

verus! {

/// The panel sizes that the controller drives.
#[derive(Clone, Copy, Debug, PartialEq, Eq, Structural)]
pub enum DisplaySize {
    /// 128 columns by 128 rows.
    Display128x128,
    /// 128 columns by 96 rows.
    Display128x96,
}

impl DisplaySize {
    /// Physical width in pixels.
    pub open spec fn width(self) -> int {
        128
    }

    /// Physical height in pixels.
    pub open spec fn height(self) -> int {
        match self {
            DisplaySize::Display128x128 => 128,
            DisplaySize::Display128x96 => 96,
        }
    }

    /// Number of pixels on the panel.
    pub open spec fn pixel_count(self) -> int {
        self.width() * self.height()
    }

    /// Physical `(width, height)` of the panel, in pixels.
    pub fn dimensions(&self) -> (r: (u8, u8))
        ensures
            r.0 == self.width(),
            r.1 == self.height(),
    {
        match self {
            DisplaySize::Display128x128 => (128, 128),
            DisplaySize::Display128x96 => (128, 96),
        }
    }

    /// Number of pixels on the panel.
    pub fn num_pixels(&self) -> (r: usize)
        ensures
            r == self.pixel_count(),
    {
        match self {
            DisplaySize::Display128x128 => 16384,
            DisplaySize::Display128x96 => 12288,
        }
    }
}

/// Orientation of the image on the panel, clockwise.
#[derive(Clone, Copy, Debug, PartialEq, Eq, Structural)]
pub enum DisplayRotation {
    /// No rotation.
    Rotate0,
    /// Rotated by 90 degrees.
    Rotate90,
    /// Rotated by 180 degrees.
    Rotate180,
    /// Rotated by 270 degrees.
    Rotate270,
}

impl DisplayRotation {
    /// Whether the logical axes are the physical ones exchanged.
    pub open spec fn swaps_axes(self) -> bool {
        self == DisplayRotation::Rotate90 || self == DisplayRotation::Rotate270
    }
}

} // verus!
