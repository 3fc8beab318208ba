//! The panel controller: bring-up, draw window, rotation and raw pixel streaming.

use vstd::prelude::*;
use crate::async_command::{send_all, transfers_of};
use crate::async_interface::{
    carried_out, lemma_continued, lemma_single, lemma_stopped_early, AsyncWriteOnlyDataCommand,
    BusLog, DataFormat, DisplayError, Phase, Transfer,
};
use crate::command::Command;
use crate::properties::{DisplayRotation, DisplaySize};

verus! {

/// The remap command that realises `rotation` on the panel.
pub open spec fn remap_command(rotation: DisplayRotation) -> Command {
    match rotation {
        DisplayRotation::Rotate0 => Command::SetRemap(false, false, true),
        DisplayRotation::Rotate90 => Command::SetRemap(true, true, true),
        DisplayRotation::Rotate180 => Command::SetRemap(false, true, false),
        DisplayRotation::Rotate270 => Command::SetRemap(true, false, false),
    }
}

/// The commands that configure a panel of `size` after reset, in the order the controller
/// needs them.
pub open spec fn bring_up_commands(size: DisplaySize) -> Seq<Command> {
    seq![
        Command::CommandLock(0x12),
        Command::CommandLock(0xB1),
        Command::DisplayOn(false),
        Command::ClockDiv(0xF1),
        Command::MuxRatio((size.height() - 1) as u8),
        Command::DisplayOffset(0),
        Command::StartLine(0),
        Command::SetGpio(0x00),
        Command::FunctionSelect(0x01),
        Command::SetVsl,
        Command::Contrast(0x8F),
        Command::ContrastCurrent(0x0F),
        Command::PreCharge(0x32),
        Command::PreCharge2(0x01),
        Command::Vcomh(0x05),
        Command::Invert(false),
    ]
}

/// The transfers that open the draw window from `start`, inclusive, to `end`, exclusive:
/// the column range, the row range, then the start of a memory write.
pub open spec fn draw_area_transfers(start: (u8, u8), end: (u8, u8)) -> Seq<Transfer> {
    Command::Column(start.0, (end.0 - 1) as u8).transfers() + Command::Row(
        start.1,
        (end.1 - 1) as u8,
    ).transfers() + Command::WriteRam.transfers()
}

/// The transfers that open the draw window over the whole panel.
pub open spec fn full_area_transfers(size: DisplaySize) -> Seq<Transfer> {
    draw_area_transfers((0, 0), (size.width() as u8, size.height() as u8))
}

/// One data transfer that carries `bytes`.
pub open spec fn data_transfer(bytes: Seq<u8>) -> Transfer {
    Transfer { phase: Phase::Data, bytes }
}

/// `count` data transfers of one black pixel each.
pub open spec fn black_pixels(count: int) -> Seq<Transfer> {
    Seq::new(count as nat, |i: int| data_transfer(seq![0u8, 0u8]))
}

/// The transfers that blank a panel of `size`: the full draw window, then one black pixel
/// for each pixel of the panel.
pub open spec fn clear_transfers(size: DisplaySize) -> Seq<Transfer> {
    full_area_transfers(size) + black_pixels(size.pixel_count())
}

/// The transfers that bring a panel of `size` up in orientation `rotation`: the configuration
/// commands, the remap for the orientation, a blank screen, and display on.
pub open spec fn init_transfers(size: DisplaySize, rotation: DisplayRotation) -> Seq<Transfer> {
    transfers_of(bring_up_commands(size)) + remap_command(rotation).transfers() + clear_transfers(
        size,
    ) + Command::DisplayOn(true).transfers()
}

/// The `(width, height)` of a panel of `size` as seen in orientation `rotation`.
pub open spec fn logical_dimensions(size: DisplaySize, rotation: DisplayRotation) -> (int, int) {
    if rotation.swaps_axes() {
        (size.height(), size.width())
    } else {
        (size.width(), size.height())
    }
}

/// The draw window from the origin to `(width, height)`, exclusive, goes out as the column
/// range from 0 to `width - 1`, then the row range from 0 to `height - 1`, then the start of
/// a memory write: five transfers, opcodes in the command phase and ranges in the data phase.
pub proof fn lemma_window_from_origin(width: u8, height: u8)
    requires
        width >= 1,
        height >= 1,
    ensures
        draw_area_transfers((0, 0), (width, height)) == Command::Column(
            0,
            (width - 1) as u8,
        ).transfers() + Command::Row(0, (height - 1) as u8).transfers()
            + Command::WriteRam.transfers(),
        draw_area_transfers((0, 0), (width, height)) == seq![
            Transfer { phase: Phase::Command, bytes: seq![0x15u8] },
            Transfer { phase: Phase::Data, bytes: seq![0u8, (width - 1) as u8] },
            Transfer { phase: Phase::Command, bytes: seq![0x75u8] },
            Transfer { phase: Phase::Data, bytes: seq![0u8, (height - 1) as u8] },
            Transfer { phase: Phase::Command, bytes: seq![0x5Cu8] },
        ],
{
    let column = Command::Column(0, (width - 1) as u8);
    let row = Command::Row(0, (height - 1) as u8);
    assert(column.payload().len() == 2);
    assert(row.payload().len() == 2);
    assert(Command::WriteRam.payload().len() == 0);
    assert(draw_area_transfers((0, 0), (width, height)) =~= seq![
        Transfer { phase: Phase::Command, bytes: seq![0x15u8] },
        Transfer { phase: Phase::Data, bytes: seq![0u8, (width - 1) as u8] },
        Transfer { phase: Phase::Command, bytes: seq![0x75u8] },
        Transfer { phase: Phase::Data, bytes: seq![0u8, (height - 1) as u8] },
        Transfer { phase: Phase::Command, bytes: seq![0x5Cu8] },
    ]);
}

/// The parameter byte of the remap for each orientation.
pub proof fn lemma_remap_bytes()
    ensures
        remap_command(DisplayRotation::Rotate0).payload() == seq![0x34u8],
        remap_command(DisplayRotation::Rotate90).payload() == seq![0x37u8],
        remap_command(DisplayRotation::Rotate180).payload() == seq![0x26u8],
        remap_command(DisplayRotation::Rotate270).payload() == seq![0x25u8],
{
    assert(0b0010_0100u8 | 0u8 | (0u8 << 1u8) | (1u8 << 4u8) == 0x34u8) by (bit_vector);
    assert(0b0010_0100u8 | 1u8 | (1u8 << 1u8) | (1u8 << 4u8) == 0x37u8) by (bit_vector);
    assert(0b0010_0100u8 | 0u8 | (1u8 << 1u8) | (0u8 << 4u8) == 0x26u8) by (bit_vector);
    assert(0b0010_0100u8 | 1u8 | (0u8 << 1u8) | (0u8 << 4u8) == 0x25u8) by (bit_vector);
}

/// Bringing a panel up begins with the sixteen configuration commands, in order; the remap,
/// the pixels that blank the screen and the command that turns the display on come after
/// the last of them.
pub proof fn lemma_init_begins_with_configuration(size: DisplaySize, rotation: DisplayRotation)
    ensures
        bring_up_commands(size).len() == 16,
        transfers_of(bring_up_commands(size)).len() <= init_transfers(size, rotation).len(),
        init_transfers(size, rotation).take(transfers_of(bring_up_commands(size)).len() as int)
            == transfers_of(bring_up_commands(size)),
        init_transfers(size, rotation).skip(transfers_of(bring_up_commands(size)).len() as int)
            == remap_command(rotation).transfers() + clear_transfers(size) + Command::DisplayOn(
            true,
        ).transfers(),
{
    let configure = transfers_of(bring_up_commands(size));
    let whole = init_transfers(size, rotation);
    assert(whole.take(configure.len() as int) =~= configure);
    assert(whole.skip(configure.len() as int) =~= remap_command(rotation).transfers()
        + clear_transfers(size) + Command::DisplayOn(true).transfers());
}

/// A panel controller on a transport.
pub struct AsyncDisplay<DI> {
    iface: DI,
    display_size: DisplaySize,
    display_rotation: DisplayRotation,
}

impl<DI> AsyncDisplay<DI> where DI: AsyncWriteOnlyDataCommand {
    /// The transport that the controller owns.
    pub closed spec fn interface(self) -> DI {
        self.iface
    }

    /// The log of the transport that the controller owns.
    pub open spec fn log(self) -> BusLog {
        self.interface().log()
    }

    /// The size of the panel.
    pub closed spec fn size(self) -> DisplaySize {
        self.display_size
    }

    /// The orientation last set.
    pub closed spec fn rotation(self) -> DisplayRotation {
        self.display_rotation
    }

    /// What `set_rotation` does: `after` is the controller once it was asked for `rotation`
    /// and returned `r`. The orientation is recorded whether or not the panel took the remap.
    pub open spec fn rotated(
        self,
        after: Self,
        rotation: DisplayRotation,
        r: Result<(), DisplayError>,
    ) -> bool {
        &&& after.size() == self.size()
        &&& after.rotation() == rotation
        &&& carried_out(self.log(), after.log(), remap_command(rotation).transfers(), r)
    }

    /// Once an orientation is set it is the orientation read back, whether or not the panel
    /// took the remap, and the dimensions read back are the panel's with width and height
    /// exchanged for a quarter turn and a three-quarter turn, and the panel's own otherwise.
    pub proof fn lemma_rotation_round_trip(
        self,
        after: Self,
        rotation: DisplayRotation,
        r: Result<(), DisplayError>,
    )
        requires
            self.rotated(after, rotation, r),
        ensures
            after.rotation() == rotation,
            rotation == DisplayRotation::Rotate90 || rotation == DisplayRotation::Rotate270
                ==> logical_dimensions(after.size(), after.rotation()) == (
                self.size().height(),
                self.size().width(),
            ),
            rotation == DisplayRotation::Rotate0 || rotation == DisplayRotation::Rotate180
                ==> logical_dimensions(after.size(), after.rotation()) == (
                self.size().width(),
                self.size().height(),
            ),
    {
    }

    /// Makes a controller for a panel of `display_size` on `iface`. Nothing is sent; the
    /// orientation reaches the panel with `init` or `set_rotation`.
    pub fn new(iface: DI, display_size: DisplaySize, display_rotation: DisplayRotation) -> (r:
        AsyncDisplay<DI>)
        ensures
            r.interface() == iface,
            r.size() == display_size,
            r.rotation() == display_rotation,
    {
        AsyncDisplay { iface, display_size, display_rotation }
    }

    /// Gives the transport back.
    pub fn release(self) -> (r: DI)
        ensures
            r == self.interface(),
    {
        self.iface
    }

    /// Brings the panel up: configures it, applies the current orientation, blanks the screen
    /// and turns the display on.
    pub fn init(&mut self) -> (r: Result<(), DisplayError>)
        ensures
            final(self).size() == old(self).size(),
            final(self).rotation() == old(self).rotation(),
            carried_out(
                old(self).log(),
                final(self).log(),
                init_transfers(old(self).size(), old(self).rotation()),
                r,
            ),
    {
        let ghost before = self.log();
        let ghost size = self.size();
        let ghost configure = transfers_of(bring_up_commands(size));
        let ghost remap = remap_command(self.rotation()).transfers();
        let ghost blank = clear_transfers(size);
        let ghost on = Command::DisplayOn(true).transfers();
        let (_, display_height) = self.display_size.dimensions();

        let bring_up: [Command; 16] = [
            Command::CommandLock(0x12),
            Command::CommandLock(0xB1),
            Command::DisplayOn(false),
            Command::ClockDiv(0xF1),
            Command::MuxRatio(display_height - 1),
            Command::DisplayOffset(0),
            Command::StartLine(0),
            Command::SetGpio(0x00),
            Command::FunctionSelect(0x01),
            Command::SetVsl,
            Command::Contrast(0x8F),
            Command::ContrastCurrent(0x0F),
            Command::PreCharge(0x32),
            Command::PreCharge2(0x01),
            Command::Vcomh(0x05),
            Command::Invert(false),
        ];
        assert(bring_up@ =~= bring_up_commands(size));
        let sent = send_all(&mut self.iface, bring_up.as_slice());
        if let Err(e) = sent {
            proof {
                lemma_stopped_early(before, self.log(), configure, remap, sent);
                lemma_stopped_early(before, self.log(), configure + remap, blank, sent);
                lemma_stopped_early(before, self.log(), configure + remap + blank, on, sent);
            }
            return Err(e);
        }
        let ghost configured = self.log();
        let sent = self.set_rotation(self.display_rotation);
        proof {
            lemma_continued(before, configured, self.log(), configure, remap, sent);
        }
        if let Err(e) = sent {
            proof {
                lemma_stopped_early(before, self.log(), configure + remap, blank, sent);
                lemma_stopped_early(before, self.log(), configure + remap + blank, on, sent);
            }
            return Err(e);
        }
        let ghost oriented = self.log();
        let sent = self.clear();
        proof {
            lemma_continued(before, oriented, self.log(), configure + remap, blank, sent);
        }
        if let Err(e) = sent {
            proof {
                lemma_stopped_early(before, self.log(), configure + remap + blank, on, sent);
            }
            return Err(e);
        }
        let ghost blanked = self.log();
        let sent = Command::DisplayOn(true).send_async(&mut self.iface);
        proof {
            lemma_continued(before, blanked, self.log(), configure + remap + blank, on, sent);
        }
        sent
    }

    /// Blanks the panel: opens the draw window over the whole panel and sends one black pixel
    /// for each pixel of it.
    pub fn clear(&mut self) -> (r: Result<(), DisplayError>)
        ensures
            final(self).size() == old(self).size(),
            final(self).rotation() == old(self).rotation(),
            carried_out(old(self).log(), final(self).log(), clear_transfers(old(self).size()), r),
    {
        let ghost before = self.log();
        let ghost window = full_area_transfers(self.size());
        let ghost count = self.size().pixel_count();
        let (display_width, display_height) = self.display_size.dimensions();
        let sent = self.set_draw_area((0, 0), (display_width, display_height));
        if let Err(e) = sent {
            proof {
                lemma_stopped_early(before, self.log(), window, black_pixels(count), sent);
            }
            return Err(e);
        }
        let ghost opened = self.log();
        let pixels: u32 = display_height as u32 * display_width as u32;
        let black: [u8; 2] = [0x00, 0x00];
        assert(black@ =~= seq![0u8, 0u8]);
        let mut i: u32 = 0;
        assert(opened.sent =~= opened.sent + black_pixels(0));
        while i < pixels
            invariant
                i <= pixels == count,
                before == old(self).log(),
                self.size() == old(self).size(),
                self.rotation() == old(self).rotation(),
                window == full_area_transfers(self.size()),
                count == self.size().pixel_count(),
                carried_out(before, opened, window, Ok(())),
                black@ == seq![0u8, 0u8],
                self.log().sent == opened.sent + black_pixels(i as int),
                self.log().fault == opened.fault,
            decreases pixels - i,
        {
            let sent = self.iface.send_data(DataFormat::U8(black.as_slice()));
            if let Err(e) = sent {
                proof {
                    assert(black_pixels(i as int) =~= black_pixels(count).take(i as int));
                    lemma_continued(before, opened, self.log(), window, black_pixels(count), sent);
                }
                return Err(e);
            }
            assert(black_pixels(i as int).push(data_transfer(seq![0u8, 0u8])) =~= black_pixels(
                i + 1,
            ));
            i += 1;
        }
        proof {
            lemma_continued(before, opened, self.log(), window, black_pixels(count), Ok(()));
        }
        Ok(())
    }

    /// Opens the draw window from `start`, inclusive, to `end`, exclusive, both as
    /// `(column, row)`. Pixel data sent next fills the window from its first pixel on.
    pub fn set_draw_area(&mut self, start: (u8, u8), end: (u8, u8)) -> (r: Result<
        (),
        DisplayError,
    >)
        requires
            start.0 < end.0,
            start.1 < end.1,
        ensures
            final(self).size() == old(self).size(),
            final(self).rotation() == old(self).rotation(),
            carried_out(old(self).log(), final(self).log(), draw_area_transfers(start, end), r),
    {
        let ghost before = self.log();
        let ghost column = Command::Column(start.0, (end.0 - 1) as u8).transfers();
        let ghost row = Command::Row(start.1, (end.1 - 1) as u8).transfers();
        let ghost write = Command::WriteRam.transfers();
        let sent = Command::Column(start.0, end.0 - 1).send_async(&mut self.iface);
        if let Err(e) = sent {
            proof {
                lemma_stopped_early(before, self.log(), column, row, sent);
                lemma_stopped_early(before, self.log(), column + row, write, sent);
            }
            return Err(e);
        }
        let ghost first = self.log();
        let sent = Command::Row(start.1, end.1 - 1).send_async(&mut self.iface);
        proof {
            lemma_continued(before, first, self.log(), column, row, sent);
        }
        if let Err(e) = sent {
            proof {
                lemma_stopped_early(before, self.log(), column + row, write, sent);
            }
            return Err(e);
        }
        let ghost second = self.log();
        let sent = Command::WriteRam.send_async(&mut self.iface);
        proof {
            lemma_continued(before, second, self.log(), column + row, write, sent);
        }
        sent
    }

    /// Sends `buffer` as pixel data, in one transfer, into the draw window.
    pub fn draw(&mut self, buffer: &[u8]) -> (r: Result<(), DisplayError>)
        ensures
            final(self).size() == old(self).size(),
            final(self).rotation() == old(self).rotation(),
            carried_out(old(self).log(), final(self).log(), seq![data_transfer(buffer@)], r),
    {
        let ghost before = self.log();
        let sent = self.iface.send_data(DataFormat::U8(buffer));
        proof {
            lemma_single(before, self.log(), data_transfer(buffer@), sent);
        }
        sent
    }

    /// The size of the panel.
    pub fn get_size(&self) -> (r: DisplaySize)
        ensures
            r == self.size(),
    {
        self.display_size
    }

    /// The `(width, height)` of the panel as seen in the current orientation.
    pub fn get_dimensions(&self) -> (r: (u8, u8))
        ensures
            (r.0 as int, r.1 as int) == logical_dimensions(self.size(), self.rotation()),
    {
        let (w, h) = self.display_size.dimensions();
        match self.display_rotation {
            DisplayRotation::Rotate0 | DisplayRotation::Rotate180 => (w, h),
            DisplayRotation::Rotate90 | DisplayRotation::Rotate270 => (h, w),
        }
    }

    /// The orientation last set.
    pub fn get_rotation(&self) -> (r: DisplayRotation)
        ensures
            r == self.rotation(),
    {
        self.display_rotation
    }

    /// Sets the orientation and sends the panel the remap that realises it. The orientation
    /// is recorded whether or not the panel took the command.
    pub fn set_rotation(&mut self, display_rotation: DisplayRotation) -> (r: Result<
        (),
        DisplayError,
    >)
        ensures
            old(self).rotated(*final(self), display_rotation, r),
    {
        self.display_rotation = display_rotation;
        match display_rotation {
            DisplayRotation::Rotate0 => Command::SetRemap(false, false, true).send_async(
                &mut self.iface,
            ),
            DisplayRotation::Rotate90 => Command::SetRemap(true, true, true).send_async(
                &mut self.iface,
            ),
            DisplayRotation::Rotate180 => Command::SetRemap(false, true, false).send_async(
                &mut self.iface,
            ),
            DisplayRotation::Rotate270 => Command::SetRemap(true, false, false).send_async(
                &mut self.iface,
            ),
        }
    }
}

} // verus!
