//! Assembling a controller or a surface from a panel size, an orientation and a transport.

use vstd::prelude::*;
use crate::async_display::AsyncDisplay;
use crate::async_interface::AsyncWriteOnlyDataCommand;
use crate::mode::async_graphics::AsyncGraphicsMode;
use crate::properties::{DisplayRotation, DisplaySize};

verus! {

/// The options of a driver, to be finished with a transport.
#[derive(Clone, Copy, Debug)]
pub struct AsyncBuilder {
    display_size: DisplaySize,
    rotation: DisplayRotation,
}

impl Default for AsyncBuilder {
    fn default() -> (r: Self)
        ensures
            r.size() == DisplaySize::Display128x128,
            r.rotation() == DisplayRotation::Rotate0,
    {
        Self::new()
    }
}

impl AsyncBuilder {
    /// The panel size chosen.
    pub closed spec fn size(self) -> DisplaySize {
        self.display_size
    }

    /// The orientation chosen.
    pub closed spec fn rotation(self) -> DisplayRotation {
        self.rotation
    }

    /// A builder for a panel of 128 by 128 pixels that is not rotated.
    pub fn new() -> (r: Self)
        ensures
            r.size() == DisplaySize::Display128x128,
            r.rotation() == DisplayRotation::Rotate0,
    {
        Self { display_size: DisplaySize::Display128x128, rotation: DisplayRotation::Rotate0 }
    }

    /// The same options with the panel size `display_size`.
    pub fn with_size(&self, display_size: DisplaySize) -> (r: Self)
        ensures
            r.size() == display_size,
            r.rotation() == self.rotation(),
    {
        Self { display_size, rotation: self.rotation }
    }

    /// The same options with the orientation `rotation`.
    pub fn with_rotation(&self, rotation: DisplayRotation) -> (r: Self)
        ensures
            r.size() == self.size(),
            r.rotation() == rotation,
    {
        Self { display_size: self.display_size, rotation }
    }

    /// Finishes the builder as a surface on `display_interface`: buffered with `buffer` as
    /// its mirror, or streamed if there is none. A mirror holds two bytes for each pixel of
    /// the panel. Nothing is sent.
    pub fn connect_interface<DI>(&self, display_interface: DI, buffer: Option<Vec<u8>>) -> (r:
        AsyncGraphicsMode<DI>) where DI: AsyncWriteOnlyDataCommand
        requires
            buffer matches Some(mirror) ==> mirror@.len() == self.size().pixel_count() * 2,
        ensures
            r.wf(),
            r.display().interface() == display_interface,
            r.panel_size() == self.size(),
            r.rotation() == self.rotation(),
            r.is_buffered() == (buffer is Some),
            buffer matches Some(mirror) ==> r.mirror() == mirror@,
    {
        let display = AsyncDisplay::new(display_interface, self.display_size, self.rotation);
        AsyncGraphicsMode::new(display, buffer)
    }

    /// Finishes the builder as a controller on `display_interface`. Nothing is sent.
    pub fn connect_display<DI>(&self, display_interface: DI) -> (r: AsyncDisplay<DI>) where
        DI: AsyncWriteOnlyDataCommand,

        ensures
            r.interface() == display_interface,
            r.size() == self.size(),
            r.rotation() == self.rotation(),
    {
        AsyncDisplay::new(display_interface, self.display_size, self.rotation)
    }
}

} // verus!
