//! A pixel surface over the panel controller, streamed or buffered.
//!
//! A streamed surface sends every pixel to the panel as it is set. A buffered surface owns a
//! mirror of the panel's memory, two bytes per pixel with the more significant byte first;
//! setting a pixel changes the mirror only, and `flush` sends the whole mirror.
//!
//! Coordinates outside the panel are the caller's error: the functions that take coordinates
//! require them to be on the panel, and none of them clamps or wraps.

use vstd::prelude::*;
use crate::async_display::{
    clear_transfers, data_transfer, draw_area_transfers, full_area_transfers, init_transfers,
    lemma_window_from_origin, logical_dimensions, remap_command, AsyncDisplay,
};
use crate::async_interface::{
    carried_out, high_byte, lemma_continued, lemma_stopped_early, low_byte, lower_byte, upper_byte,
    AsyncWriteOnlyDataCommand, BusLog, DisplayError, Transfer,
};
use crate::properties::{DisplayRotation, DisplaySize};
use embedded_graphics_core::geometry::{Point, Size};
use embedded_graphics_core::primitives::Rectangle;

verus! {

/// A pixel to draw: a position, which may lie off the panel, and a colour in RGB565.
#[derive(Clone, Copy, Debug, PartialEq, Eq, Structural)]
pub struct Pixel {
    pub x: i32,
    pub y: i32,
    pub color: u16,
}

/// One step of the hardware reset of the panel.
#[derive(Clone, Copy, Debug, PartialEq, Eq, Structural)]
pub enum ResetAction {
    /// Drive the reset line high.
    DriveHigh,
    /// Drive the reset line low.
    DriveLow,
    /// Wait at least this many milliseconds.
    Wait(u64),
}

/// The hardware reset: line high, at least 1 ms, line low, at least 10 ms, line high.
pub open spec fn reset_sequence() -> Seq<ResetAction> {
    seq![
        ResetAction::DriveHigh,
        ResetAction::Wait(1),
        ResetAction::DriveLow,
        ResetAction::Wait(10),
        ResetAction::DriveHigh,
    ]
}

/// Whether column `x`, row `y` is a pixel of a panel of `size`.
pub open spec fn on_panel(size: DisplaySize, x: int, y: int) -> bool {
    0 <= x < size.width() && 0 <= y < size.height()
}

/// Where the two bytes of the pixel in column `x`, row `y` start in the mirror of a panel of
/// `size`. The mirror is laid out row by row in the panel's own orientation.
pub open spec fn mirror_offset(size: DisplaySize, x: int, y: int) -> int {
    (y * size.width() + x) * 2
}

/// The two bytes of `color` as the panel takes them.
pub open spec fn color_bytes(color: u16) -> Seq<u8> {
    seq![high_byte(color), low_byte(color)]
}

/// The mirror `mirror` with the pixel in column `x`, row `y` set to `color`.
pub open spec fn with_pixel(mirror: Seq<u8>, size: DisplaySize, x: int, y: int, color: u16) -> Seq<
    u8,
> {
    mirror.update(mirror_offset(size, x, y), high_byte(color)).update(
        mirror_offset(size, x, y) + 1,
        low_byte(color),
    )
}

/// The mirror `mirror` after `pixels` are drawn in order; those off the panel are left out.
pub open spec fn painted(mirror: Seq<u8>, size: DisplaySize, pixels: Seq<Pixel>) -> Seq<u8>
    decreases pixels.len(),
{
    if pixels.len() == 0 {
        mirror
    } else {
        let earlier = painted(mirror, size, pixels.drop_last());
        let pixel = pixels.last();
        if on_panel(size, pixel.x as int, pixel.y as int) {
            with_pixel(earlier, size, pixel.x as int, pixel.y as int, pixel.color)
        } else {
            earlier
        }
    }
}

/// A mirror of `len` bytes in which every pixel is black.
pub open spec fn blank(len: nat) -> Seq<u8> {
    Seq::new(len, |i: int| 0u8)
}

/// The column and row that a streamed surface addresses for the logical position `(x, y)`:
/// the axes are exchanged where the orientation exchanges them.
pub open spec fn addressed(rotation: DisplayRotation, x: int, y: int) -> (int, int) {
    if rotation.swaps_axes() {
        (y, x)
    } else {
        (x, y)
    }
}

/// The transfers with which a streamed surface sets the pixel at the logical position
/// `(x, y)`: a draw window from the pixel addressed to the end of the panel, then the colour.
pub open spec fn pixel_transfers(
    size: DisplaySize,
    rotation: DisplayRotation,
    x: int,
    y: int,
    color: u16,
) -> Seq<Transfer> {
    let at = addressed(rotation, x, y);
    draw_area_transfers(
        (at.0 as u8, at.1 as u8),
        (size.width() as u8, size.height() as u8),
    ) + seq![data_transfer(color_bytes(color))]
}

/// The transfers with which a buffered surface sends its mirror: the draw window over the
/// whole panel, then the mirror in one transfer.
pub open spec fn flush_transfers(size: DisplaySize, mirror: Seq<u8>) -> Seq<Transfer> {
    full_area_transfers(size) + seq![data_transfer(mirror)]
}

/// A blank mirror stays blank when blanked again, and flushing the blank mirror of a panel
/// sends the draw window over the whole panel once, then one transfer with two zero bytes
/// for each pixel of the panel.
pub proof fn lemma_blank_flush(size: DisplaySize)
    ensures
        blank(blank((size.pixel_count() * 2) as nat).len()) == blank(
            (size.pixel_count() * 2) as nat,
        ),
        blank((size.pixel_count() * 2) as nat).len() == size.width() * size.height() * 2,
        forall|i: int|
            0 <= i < size.pixel_count() * 2 ==> #[trigger] blank(
                (size.pixel_count() * 2) as nat,
            )[i] == 0u8,
        flush_transfers(size, blank((size.pixel_count() * 2) as nat)).len() == 6,
        flush_transfers(size, blank((size.pixel_count() * 2) as nat)).take(5)
            == full_area_transfers(size),
        flush_transfers(size, blank((size.pixel_count() * 2) as nat))[5] == data_transfer(
            blank((size.pixel_count() * 2) as nat),
        ),
{
    let mirror = blank((size.pixel_count() * 2) as nat);
    lemma_window_from_origin(size.width() as u8, size.height() as u8);
    assert(flush_transfers(size, mirror).take(5) =~= full_area_transfers(size));
}

/// A pixel set on a streamed surface and the same pixel set on a buffered surface and
/// flushed put the same two bytes on the bus for that pixel: the colour, more significant
/// byte first. The streamed surface sends them as its one data transfer of pixels; the
/// buffered surface sends them within the mirror, at the place of the pixel, and leaves
/// every other byte of the mirror as it was.
pub proof fn lemma_streamed_and_buffered_agree(
    mirror: Seq<u8>,
    size: DisplaySize,
    rotation: DisplayRotation,
    x: int,
    y: int,
    color: u16,
)
    requires
        mirror.len() == size.pixel_count() * 2,
        on_panel(size, x, y),
    ensures
        0 <= mirror_offset(size, x, y),
        mirror_offset(size, x, y) + 2 <= mirror.len(),
        pixel_transfers(size, rotation, x, y, color).last() == data_transfer(color_bytes(color)),
        flush_transfers(size, with_pixel(mirror, size, x, y, color)).last().bytes.subrange(
            mirror_offset(size, x, y),
            mirror_offset(size, x, y) + 2,
        ) == pixel_transfers(size, rotation, x, y, color).last().bytes,
        forall|i: int|
            0 <= i < mirror.len() && i != mirror_offset(size, x, y) && i != mirror_offset(
                size,
                x,
                y,
            ) + 1 ==> #[trigger] with_pixel(mirror, size, x, y, color)[i] == mirror[i],
{
    let offset = mirror_offset(size, x, y);
    let after = with_pixel(mirror, size, x, y, color);
    assert(0 <= offset && offset + 2 <= mirror.len());
    assert(after.subrange(offset, offset + 2) =~= color_bytes(color));
}

/// Whether the rectangle of `width` by `height` pixels with its corner at the origin holds
/// the point `(x, y)`.
///
/// Asks `embedded_graphics_core::primitives::Rectangle::contains`. The contract claims what
/// its source shows for a rectangle at the origin: the point is inside when both coordinates
/// are at least zero and less than the width and the height; an empty rectangle holds none.
#[verifier::external_body]
fn bounding_box_contains(width: u8, height: u8, x: i32, y: i32) -> (r: bool)
    ensures
        r == (0 <= x < width && 0 <= y < height),
{
    let size = Size::new(width as u32, height as u32);
    Rectangle::new(Point::zero(), size).contains(Point::new(x, y))
}

/// The whole of `bytes` as a slice to write into.
///
/// Asks `Vec::as_mut_slice`. The contract claims that the slice starts out as the vector's
/// contents, that the vector ends up with what the slice ends up with, and that the slice
/// keeps its length, as every slice does.
#[verifier::external_body]
fn whole_slice_mut(bytes: &mut Vec<u8>) -> (r: &mut [u8])
    ensures
        r@ == old(bytes)@,
        final(r)@.len() == r@.len(),
        final(bytes)@ == final(r)@,
{
    bytes.as_mut_slice()
}

/// A pixel surface over a panel controller.
///
/// The surface is buffered if it was made with a mirror and streamed if not.
pub struct AsyncGraphicsMode<DI> where DI: AsyncWriteOnlyDataCommand {
    display: AsyncDisplay<DI>,
    buffered: bool,
    buffer: Vec<u8>,
}

impl<DI> AsyncGraphicsMode<DI> where DI: AsyncWriteOnlyDataCommand {
    /// The controller that the surface owns.
    pub closed spec fn display(self) -> AsyncDisplay<DI> {
        self.display
    }

    /// Whether the surface is buffered.
    pub closed spec fn is_buffered(self) -> bool {
        self.buffered
    }

    /// The mirror of a buffered surface; empty for a streamed one.
    pub closed spec fn mirror(self) -> Seq<u8> {
        self.buffer@
    }

    /// The log of the transport underneath.
    pub open spec fn log(self) -> BusLog {
        self.display().log()
    }

    /// The size of the panel.
    pub open spec fn panel_size(self) -> DisplaySize {
        self.display().size()
    }

    /// The orientation last set.
    pub open spec fn rotation(self) -> DisplayRotation {
        self.display().rotation()
    }

    /// What holds of every surface: the mirror of a buffered one has two bytes for each pixel
    /// of the panel, and a streamed one has none.
    pub open spec fn wf(self) -> bool {
        self.mirror().len() == if self.is_buffered() {
            self.panel_size().pixel_count() * 2
        } else {
            0
        }
    }

    /// Whether `set_pixel` may be asked for `(x, y)`: on a buffered surface a column and a row
    /// of the panel, on a streamed one a position within the dimensions as oriented.
    pub open spec fn covers(self, x: int, y: int) -> bool {
        if self.is_buffered() {
            on_panel(self.panel_size(), x, y)
        } else {
            0 <= x < logical_dimensions(self.panel_size(), self.rotation()).0 && 0 <= y
                < logical_dimensions(self.panel_size(), self.rotation()).1
        }
    }

    /// Makes a surface over `display`: buffered with `buffer` as its mirror, or streamed if
    /// there is none. A mirror holds two bytes for each pixel of the panel.
    pub fn new(display: AsyncDisplay<DI>, buffer: Option<Vec<u8>>) -> (r: Self)
        requires
            buffer matches Some(mirror) ==> mirror@.len() == display.size().pixel_count() * 2,
        ensures
            r.wf(),
            r.display() == display,
            r.is_buffered() == (buffer is Some),
            buffer matches Some(mirror) ==> r.mirror() == mirror@,
    {
        match buffer {
            Some(mirror) => AsyncGraphicsMode { display, buffered: true, buffer: mirror },
            None => AsyncGraphicsMode { display, buffered: false, buffer: Vec::new() },
        }
    }

    /// Gives back the controller and, from a buffered surface, the mirror.
    pub fn release(self) -> (r: (AsyncDisplay<DI>, Option<Vec<u8>>))
        ensures
            r.0 == self.display(),
            (r.1 is Some) == self.is_buffered(),
            r.1 matches Some(mirror) ==> mirror@ == self.mirror(),
    {
        if self.buffered {
            (self.display, Some(self.buffer))
        } else {
            (self.display, None)
        }
    }

    /// Blanks the surface.
    ///
    /// A buffered surface sets every byte of its mirror to zero and, if `flush`, sends the
    /// mirror; the mirror is blank even where sending fails. A streamed surface blanks the
    /// panel itself, whatever `flush` says.
    pub fn clear(&mut self, flush: bool) -> (r: Result<(), DisplayError>)
        requires
            old(self).wf(),
        ensures
            final(self).wf(),
            final(self).is_buffered() == old(self).is_buffered(),
            final(self).panel_size() == old(self).panel_size(),
            final(self).rotation() == old(self).rotation(),
            final(self).mirror() == blank(old(self).mirror().len()),
            old(self).is_buffered() && !flush ==> r is Ok,
            carried_out(
                old(self).log(),
                final(self).log(),
                if !old(self).is_buffered() {
                    clear_transfers(old(self).panel_size())
                } else if flush {
                    flush_transfers(old(self).panel_size(), blank(old(self).mirror().len()))
                } else {
                    seq![]
                },
                r,
            ),
    {
        if !self.buffered {
            assert(self.buffer@ =~= blank(0));
            return self.display.clear();
        }
        let len: usize = self.buffer.len();
        let mut i: usize = 0;
        while i < len
            invariant
                i <= len == self.buffer@.len() == old(self).mirror().len(),
                self.buffered,
                self.display == old(self).display,
                forall|k: int| 0 <= k < i ==> self.buffer@[k] == 0u8,
            decreases len - i,
        {
            self.buffer[i] = 0u8;
            i += 1;
        }
        assert(self.buffer@ =~= blank(len as nat));
        if flush {
            self.flush()
        } else {
            assert(self.log().sent =~= self.log().sent + Seq::<Transfer>::empty());
            Ok(())
        }
    }

    /// The action to take at step `step` of the hardware reset, counted from zero, or `None`
    /// once the reset is complete. The caller drives the reset line and keeps the time.
    pub fn reset_async(&self, step: usize) -> (r: Option<ResetAction>)
        ensures
            step < reset_sequence().len() ==> r == Some(reset_sequence()[step as int]),
            step >= reset_sequence().len() ==> r is None,
    {
        match step {
            0 => Some(ResetAction::DriveHigh),
            1 => Some(ResetAction::Wait(1)),
            2 => Some(ResetAction::DriveLow),
            3 => Some(ResetAction::Wait(10)),
            4 => Some(ResetAction::DriveHigh),
            _ => None,
        }
    }

    /// The mirror of a buffered surface; empty for a streamed one.
    pub fn fb(&self) -> (r: &[u8])
        requires
            self.wf(),
        ensures
            r@ == self.mirror(),
            self.is_buffered() ==> r@.len() == self.panel_size().pixel_count() * 2,
            !self.is_buffered() ==> r@.len() == 0,
    {
        self.buffer.as_slice()
    }

    /// The mirror of a buffered surface, to draw into; empty for a streamed one.
    pub fn fb_mut(&mut self) -> (r: &mut [u8])
        requires
            old(self).wf(),
        ensures
            r@ == old(self).mirror(),
            final(r)@.len() == r@.len(),
            final(self).mirror() == final(r)@,
            final(self).display() == old(self).display(),
            final(self).is_buffered() == old(self).is_buffered(),
            final(self).wf(),
    {
        whole_slice_mut(&mut self.buffer)
    }

    /// Sets the pixel at `(x, y)` to `color`.
    ///
    /// A buffered surface writes the two bytes of the colour into its mirror, at the place of
    /// column `x`, row `y` of the panel, whatever the orientation: the panel applies the
    /// orientation when it shows its memory. Nothing is sent. A streamed surface opens a draw
    /// window at the position, with the axes exchanged where the orientation exchanges them,
    /// and sends the two bytes.
    pub fn set_pixel(&mut self, x: u32, y: u32, color: u16) -> (r: Result<(), DisplayError>)
        requires
            old(self).wf(),
            old(self).covers(x as int, y as int),
        ensures
            final(self).wf(),
            final(self).is_buffered() == old(self).is_buffered(),
            final(self).panel_size() == old(self).panel_size(),
            final(self).rotation() == old(self).rotation(),
            old(self).is_buffered() ==> r is Ok && final(self).display() == old(self).display()
                && final(self).mirror() == with_pixel(
                old(self).mirror(),
                old(self).panel_size(),
                x as int,
                y as int,
                color,
            ),
            !old(self).is_buffered() ==> final(self).mirror() == old(self).mirror() && carried_out(
                old(self).log(),
                final(self).log(),
                pixel_transfers(old(self).panel_size(), old(self).rotation(), x as int, y as int, color),
                r,
            ),
    {
        let (display_width, display_height) = self.display.get_size().dimensions();
        if self.buffered {
            assert(y * display_width == y * 128 && y * 128 <= 127 * 128) by (nonlinear_arith)
                requires
                    display_width == 128,
                    0 <= y < 128,
            ;
            let offset: usize = (y as usize * display_width as usize + x as usize) * 2;
            self.buffer[offset] = upper_byte(color);
            self.buffer[offset + 1] = lower_byte(color);
            return Ok(());
        }
        let ghost before = self.log();
        let ghost window = draw_area_transfers(
            (addressed(self.rotation(), x as int, y as int).0 as u8, addressed(
                self.rotation(),
                x as int,
                y as int,
            ).1 as u8),
            (self.panel_size().width() as u8, self.panel_size().height() as u8),
        );
        let ghost colour = seq![data_transfer(color_bytes(color))];
        let (nx, ny) = match self.display.get_rotation() {
            DisplayRotation::Rotate0 | DisplayRotation::Rotate180 => (x, y),
            DisplayRotation::Rotate90 | DisplayRotation::Rotate270 => (y, x),
        };
        let sent = self.display.set_draw_area((nx as u8, ny as u8), (display_width, display_height));
        if let Err(e) = sent {
            proof {
                lemma_stopped_early(before, self.log(), window, colour, sent);
            }
            return Err(e);
        }
        let ghost opened = self.log();
        let bytes: [u8; 2] = [upper_byte(color), lower_byte(color)];
        assert(bytes@ =~= color_bytes(color));
        let sent = self.display.draw(bytes.as_slice());
        proof {
            lemma_continued(before, opened, self.log(), window, colour, sent);
        }
        sent
    }

    /// Sends the mirror of a buffered surface to the panel: the draw window over the whole
    /// panel, then the mirror in one transfer. A streamed surface has nothing to send.
    pub fn flush(&mut self) -> (r: Result<(), DisplayError>)
        requires
            old(self).wf(),
        ensures
            final(self).wf(),
            final(self).is_buffered() == old(self).is_buffered(),
            final(self).panel_size() == old(self).panel_size(),
            final(self).rotation() == old(self).rotation(),
            final(self).mirror() == old(self).mirror(),
            !old(self).is_buffered() ==> r is Ok,
            carried_out(
                old(self).log(),
                final(self).log(),
                if old(self).is_buffered() {
                    flush_transfers(old(self).panel_size(), old(self).mirror())
                } else {
                    seq![]
                },
                r,
            ),
    {
        if !self.buffered {
            assert(self.log().sent =~= self.log().sent + Seq::<Transfer>::empty());
            return Ok(());
        }
        let ghost before = self.log();
        let ghost window = full_area_transfers(self.panel_size());
        let ghost data = seq![data_transfer(self.mirror())];
        let (display_width, display_height) = self.display.get_size().dimensions();
        let sent = self.display.set_draw_area((0, 0), (display_width, display_height));
        if let Err(e) = sent {
            proof {
                lemma_stopped_early(before, self.log(), window, data, sent);
            }
            return Err(e);
        }
        let ghost opened = self.log();
        let sent = self.display.draw(self.buffer.as_slice());
        proof {
            lemma_continued(before, opened, self.log(), window, data, sent);
        }
        sent
    }

    /// Brings the panel up; the mirror is left as it is.
    pub fn init(&mut self) -> (r: Result<(), DisplayError>)
        requires
            old(self).wf(),
        ensures
            final(self).wf(),
            final(self).is_buffered() == old(self).is_buffered(),
            final(self).panel_size() == old(self).panel_size(),
            final(self).rotation() == old(self).rotation(),
            final(self).mirror() == old(self).mirror(),
            carried_out(
                old(self).log(),
                final(self).log(),
                init_transfers(old(self).panel_size(), old(self).rotation()),
                r,
            ),
    {
        self.display.init()
    }

    /// Sets the orientation and sends the panel the remap that realises it.
    pub fn set_rotation(&mut self, rot: DisplayRotation) -> (r: Result<(), DisplayError>)
        requires
            old(self).wf(),
        ensures
            final(self).wf(),
            final(self).is_buffered() == old(self).is_buffered(),
            final(self).panel_size() == old(self).panel_size(),
            final(self).rotation() == rot,
            final(self).mirror() == old(self).mirror(),
            carried_out(old(self).log(), final(self).log(), remap_command(rot).transfers(), r),
    {
        self.display.set_rotation(rot)
    }

    /// The `(width, height)` of the panel as seen in the current orientation.
    pub fn get_dimensions(&self) -> (r: (u8, u8))
        ensures
            (r.0 as int, r.1 as int) == logical_dimensions(self.panel_size(), self.rotation()),
    {
        self.display.get_dimensions()
    }

    /// The `(width, height)` of the drawing area: that of the panel, whatever the orientation.
    pub fn size(&self) -> (r: (u32, u32))
        ensures
            r.0 == self.panel_size().width(),
            r.1 == self.panel_size().height(),
    {
        let dim = self.display.get_size().dimensions();
        (dim.0 as u32, dim.1 as u32)
    }

    /// Draws `pixels` in order, leaving out those that lie off the panel.
    ///
    /// A buffered surface sets each pixel in its mirror. A streamed surface draws nothing:
    /// its pixels are set one by one with `set_pixel`. Nothing is sent either way.
    pub fn draw_iter(&mut self, pixels: &[Pixel]) -> (r: Result<(), ()>)
        requires
            old(self).wf(),
        ensures
            final(self).wf(),
            r is Ok,
            final(self).display() == old(self).display(),
            final(self).is_buffered() == old(self).is_buffered(),
            final(self).mirror() == if old(self).is_buffered() {
                painted(old(self).mirror(), old(self).panel_size(), pixels@)
            } else {
                old(self).mirror()
            },
    {
        let (width, height) = self.display.get_size().dimensions();
        let mut i: usize = 0;
        assert(pixels@.take(0) =~= Seq::<Pixel>::empty());
        while i < pixels.len()
            invariant
                i <= pixels.len(),
                self.wf(),
                width == self.panel_size().width(),
                height == self.panel_size().height(),
                self.display == old(self).display,
                self.buffered == old(self).buffered,
                self.buffer@ == if self.buffered {
                    painted(old(self).mirror(), self.panel_size(), pixels@.take(i as int))
                } else {
                    old(self).mirror()
                },
            decreases pixels.len() - i,
        {
            let pixel = pixels[i];
            proof {
                assert(pixels@.take(i + 1).drop_last() =~= pixels@.take(i as int));
                assert(pixels@.take(i + 1).last() == pixel);
            }
            if bounding_box_contains(width, height, pixel.x, pixel.y) && self.buffered {
                let _ = self.set_pixel(pixel.x as u32, pixel.y as u32, pixel.color);
            }
            i += 1;
        }
        assert(pixels@.take(i as int) =~= pixels@);
        Ok(())
    }
}

} // verus!
