//! The controller's commands and their wire encoding.

use vstd::prelude::*;

verus! {

/// A command of the controller, with its parameters.
#[derive(Clone, Copy, Debug, PartialEq, Eq, Structural)]
pub enum Command {
    /// Lock or unlock the command interface.
    CommandLock(u8),
    /// Turn the display on (`true`) or put it to sleep (`false`).
    DisplayOn(bool),
    /// Front clock divider and oscillator frequency.
    ClockDiv(u8),
    /// Multiplex ratio: the number of rows driven, less one.
    MuxRatio(u8),
    /// Address increment (vertical if set), column remap and scan direction.
    SetRemap(bool, bool, bool),
    /// First and last column of the draw window, both inclusive.
    Column(u8, u8),
    /// First and last row of the draw window, both inclusive.
    Row(u8, u8),
    /// Display start line.
    StartLine(u8),
    /// Display offset.
    DisplayOffset(u8),
    /// Function of the two general purpose pins.
    SetGpio(u8),
    /// Interface width and regulator selection.
    FunctionSelect(u8),
    /// Reset and first pre-charge period.
    PreCharge(u8),
    /// COM deselect voltage level.
    Vcomh(u8),
    /// Inverted (`true`) or normal (`false`) display.
    Invert(bool),
    /// Contrast of the middle colour channel; the outer two are fixed.
    Contrast(u8),
    /// Master contrast current.
    ContrastCurrent(u8),
    /// Segment low voltage.
    SetVsl,
    /// Second pre-charge period.
    PreCharge2(u8),
    /// Start writing to display memory.
    WriteRam,
}

/// A flag as a bit.
pub open spec fn bit(flag: bool) -> u8 {
    if flag {
        1
    } else {
        0
    }
}

/// The parameter byte of the remap command.
pub open spec fn remap_byte(incr: bool, remap: bool, scan: bool) -> u8 {
    0b0010_0100u8 | bit(incr) | (bit(remap) << 1u8) | (bit(scan) << 4u8)
}

impl Command {
    /// The opcode byte, sent in the command phase.
    pub open spec fn opcode(self) -> u8 {
        match self {
            Command::CommandLock(_) => 0xFD,
            Command::DisplayOn(on) => if on {
                0xAF
            } else {
                0xAE
            },
            Command::ClockDiv(_) => 0xB3,
            Command::MuxRatio(_) => 0xCA,
            Command::SetRemap(_, _, _) => 0xA0,
            Command::Column(_, _) => 0x15,
            Command::Row(_, _) => 0x75,
            Command::StartLine(_) => 0xA1,
            Command::DisplayOffset(_) => 0xA2,
            Command::SetGpio(_) => 0xB5,
            Command::FunctionSelect(_) => 0xAB,
            Command::PreCharge(_) => 0xB1,
            Command::Vcomh(_) => 0xBE,
            Command::Invert(on) => if on {
                0xA7
            } else {
                0xA6
            },
            Command::Contrast(_) => 0xC1,
            Command::ContrastCurrent(_) => 0xC7,
            Command::SetVsl => 0xB4,
            Command::PreCharge2(_) => 0xB6,
            Command::WriteRam => 0x5C,
        }
    }

    /// The parameter bytes, sent in the data phase; empty where the command has none.
    pub open spec fn payload(self) -> Seq<u8> {
        match self {
            Command::CommandLock(v) => seq![v],
            Command::DisplayOn(_) => seq![],
            Command::ClockDiv(v) => seq![v],
            Command::MuxRatio(v) => seq![v],
            Command::SetRemap(incr, remap, scan) => seq![remap_byte(incr, remap, scan)],
            Command::Column(start, end) => seq![start, end],
            Command::Row(start, end) => seq![start, end],
            Command::StartLine(v) => seq![v],
            Command::DisplayOffset(v) => seq![v],
            Command::SetGpio(v) => seq![v],
            Command::FunctionSelect(v) => seq![v],
            Command::PreCharge(v) => seq![v],
            Command::Vcomh(v) => seq![v],
            Command::Invert(_) => seq![],
            Command::Contrast(v) => seq![0xC8, v, 0xC8],
            Command::ContrastCurrent(v) => seq![v],
            Command::SetVsl => seq![0xA0, 0xB5, 0x55],
            Command::PreCharge2(v) => seq![v],
            Command::WriteRam => seq![],
        }
    }

    /// The parameter bytes in a buffer of six bytes, the rest of which is zero.
    pub open spec fn padded_payload(self) -> Seq<u8> {
        self.payload() + Seq::new((6 - self.payload().len()) as nat, |i: int| 0u8)
    }

    /// No command has more than six parameter bytes.
    pub proof fn lemma_payload_fits(self)
        ensures
            self.payload().len() <= 6,
            self.padded_payload().len() == 6,
            self.padded_payload().take(self.payload().len() as int) == self.payload(),
    {
        assert(self.padded_payload().take(self.payload().len() as int) =~= self.payload());
    }

    /// Encodes the command as its opcode, a buffer that starts with its parameter bytes, and
    /// the number of parameter bytes. The rest of the buffer is zero.
    pub fn encode(self) -> (r: (u8, [u8; 6], usize))
        ensures
            r.0 == self.opcode(),
            r.1@ == self.padded_payload(),
            r.2 == self.payload().len(),
            r.2 <= 6,
    {
        let r: (u8, [u8; 6], usize) = match self {
            Command::CommandLock(val) => (0xFD, [val, 0, 0, 0, 0, 0], 1),
            Command::DisplayOn(val) => (if val { 0xAF } else { 0xAE }, [0, 0, 0, 0, 0, 0], 0),
            Command::ClockDiv(val) => (0xB3, [val, 0, 0, 0, 0, 0], 1),
            Command::MuxRatio(val) => (0xCA, [val, 0, 0, 0, 0, 0], 1),
            Command::SetRemap(incr, remap, scan) => (
                0xA0,
                [remap_parameter(incr, remap, scan), 0, 0, 0, 0, 0],
                1,
            ),
            Command::Column(start, end) => (0x15, [start, end, 0, 0, 0, 0], 2),
            Command::Row(start, end) => (0x75, [start, end, 0, 0, 0, 0], 2),
            Command::StartLine(val) => (0xA1, [val, 0, 0, 0, 0, 0], 1),
            Command::DisplayOffset(val) => (0xA2, [val, 0, 0, 0, 0, 0], 1),
            Command::SetGpio(val) => (0xB5, [val, 0, 0, 0, 0, 0], 1),
            Command::FunctionSelect(val) => (0xAB, [val, 0, 0, 0, 0, 0], 1),
            Command::PreCharge(val) => (0xB1, [val, 0, 0, 0, 0, 0], 1),
            Command::Vcomh(val) => (0xBE, [val, 0, 0, 0, 0, 0], 1),
            Command::Invert(val) => (if val { 0xA7 } else { 0xA6 }, [0, 0, 0, 0, 0, 0], 0),
            Command::Contrast(val) => (0xC1, [0xC8, val, 0xC8, 0, 0, 0], 3),
            Command::ContrastCurrent(val) => (0xC7, [val, 0, 0, 0, 0, 0], 1),
            Command::SetVsl => (0xB4, [0xA0, 0xB5, 0x55, 0, 0, 0], 3),
            Command::PreCharge2(val) => (0xB6, [val, 0, 0, 0, 0, 0], 1),
            Command::WriteRam => (0x5C, [0, 0, 0, 0, 0, 0], 0),
        };
        assert(r.1@ =~= self.padded_payload());
        r
    }
}

/// Computes the parameter byte of the remap command.
fn remap_parameter(incr: bool, remap: bool, scan: bool) -> (r: u8)
    ensures
        r == remap_byte(incr, remap, scan),
{
    let i: u8 = if incr { 1 } else { 0 };
    let m: u8 = if remap { 1 } else { 0 };
    let s: u8 = if scan { 1 } else { 0 };
    0b0010_0100u8 | i | (m << 1u8) | (s << 4u8)
}

} // verus!
