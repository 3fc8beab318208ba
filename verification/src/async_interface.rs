//! The transport that carries bytes to the panel, and the data it is handed.

use vstd::prelude::*;

verus! {

/// Why a transfer to the panel failed.
#[derive(Clone, Copy, Debug, PartialEq, Eq, Structural)]
pub enum DisplayError {
    /// The data format is not valid for the transport.
    InvalidFormatError,
    /// The bus did not take the bytes.
    BusWriteError,
    /// The data/command selector line could not be switched.
    DCError,
    /// The chip-select line could not be switched.
    CSError,
    /// The transport does not implement the data format.
    DataFormatNotImplemented,
    /// The reset line could not be switched.
    RSError,
    /// A pixel outside the panel was addressed.
    OutOfBoundsError,
}

/// The two phases of the bus, told apart by the data/command selector line.
#[derive(Clone, Copy, Debug, PartialEq, Eq, Structural)]
pub enum Phase {
    /// Selector low: the bytes are opcodes.
    Command,
    /// Selector high: the bytes are parameters or pixels.
    Data,
}

/// One completed transfer as the panel saw it: a phase and the bytes sent in it.
pub struct Transfer {
    pub phase: Phase,
    pub bytes: Seq<u8>,
}

/// More significant byte of a 16-bit word.
pub open spec fn high_byte(word: u16) -> u8 {
    (word / 256) as u8
}

/// Less significant byte of a 16-bit word.
pub open spec fn low_byte(word: u16) -> u8 {
    (word % 256) as u8
}

/// The words as bytes, more significant byte of each word first.
pub open spec fn big_endian(words: Seq<u16>) -> Seq<u8> {
    Seq::new(
        2 * words.len(),
        |i: int|
            if i % 2 == 0 {
                high_byte(words[i / 2])
            } else {
                low_byte(words[i / 2])
            },
    )
}

/// The words as bytes, less significant byte of each word first.
pub open spec fn little_endian(words: Seq<u16>) -> Seq<u8> {
    Seq::new(
        2 * words.len(),
        |i: int|
            if i % 2 == 0 {
                low_byte(words[i / 2])
            } else {
                high_byte(words[i / 2])
            },
    )
}

/// Borrowed data for one transfer, in one of the layouts a caller may hold it in.
pub enum DataFormat<'a> {
    /// Bytes, sent as they are.
    U8(&'a [u8]),
    /// 16-bit words, sent more significant byte first.
    U16(&'a [u16]),
    /// 16-bit words, sent more significant byte first.
    U16BE(&'a [u16]),
    /// 16-bit words, sent less significant byte first.
    U16LE(&'a [u16]),
    /// A stream of bytes, sent as they are.
    U8Iter(&'a [u8]),
    /// A stream of 16-bit words, sent more significant byte first.
    U16BEIter(&'a [u16]),
    /// A stream of 16-bit words, sent less significant byte first.
    U16LEIter(&'a [u16]),
}

impl<'a> DataFormat<'a> {
    /// The bytes that reach the bus for this data, in order.
    pub open spec fn wire_bytes(self) -> Seq<u8> {
        match self {
            DataFormat::U8(bytes) => bytes@,
            DataFormat::U16(words) => big_endian(words@),
            DataFormat::U16BE(words) => big_endian(words@),
            DataFormat::U16LE(words) => little_endian(words@),
            DataFormat::U8Iter(bytes) => bytes@,
            DataFormat::U16BEIter(words) => big_endian(words@),
            DataFormat::U16LEIter(words) => little_endian(words@),
        }
    }

    /// The bytes that reach the bus for this data, in order.
    pub fn to_bytes(&self) -> (r: Vec<u8>)
        ensures
            r@ == self.wire_bytes(),
    {
        match self {
            DataFormat::U8(bytes) => vstd::slice::slice_to_vec(bytes),
            DataFormat::U16(words) => bytes_of_words(words, true),
            DataFormat::U16BE(words) => bytes_of_words(words, true),
            DataFormat::U16LE(words) => bytes_of_words(words, false),
            DataFormat::U8Iter(bytes) => vstd::slice::slice_to_vec(bytes),
            DataFormat::U16BEIter(words) => bytes_of_words(words, true),
            DataFormat::U16LEIter(words) => bytes_of_words(words, false),
        }
    }
}

/// More significant byte of `word`.
pub fn upper_byte(word: u16) -> (r: u8)
    ensures
        r == high_byte(word),
{
    assert(word >> 8u16 == word / 256) by (bit_vector);
    (word >> 8u16) as u8
}

/// Less significant byte of `word`.
pub fn lower_byte(word: u16) -> (r: u8)
    ensures
        r == low_byte(word),
{
    assert(word & 0xFFu16 == word % 256) by (bit_vector);
    (word & 0xFFu16) as u8
}

/// The bytes of `words`, each word as two bytes, the more significant one first if
/// `high_first` and last if not.
pub(crate) fn bytes_of_words(words: &[u16], high_first: bool) -> (r: Vec<u8>)
    ensures
        r@ == if high_first {
            big_endian(words@)
        } else {
            little_endian(words@)
        },
{
    let mut bytes: Vec<u8> = Vec::new();
    let mut i: usize = 0;
    while i < words.len()
        invariant
            i <= words.len(),
            bytes@ == if high_first {
                big_endian(words@.take(i as int))
            } else {
                little_endian(words@.take(i as int))
            },
        decreases words.len() - i,
    {
        let word = words[i];
        if high_first {
            bytes.push(upper_byte(word));
            bytes.push(lower_byte(word));
            assert(bytes@ =~= big_endian(words@.take(i + 1)));
        } else {
            bytes.push(lower_byte(word));
            bytes.push(upper_byte(word));
            assert(bytes@ =~= little_endian(words@.take(i + 1)));
        }
        i += 1;
    }
    assert(words@.take(i as int) =~= words@);
    bytes
}

/// What a transport has done so far.
pub struct BusLog {
    /// The transfers completed, oldest first. A transfer that failed is not among them.
    pub sent: Seq<Transfer>,
    /// The error of the latest transfer that failed, if any has.
    pub fault: Option<DisplayError>,
}

/// What one attempt to send `transfer` does to a transport's log: on success the transfer is
/// appended and nothing else changes; on failure the transfers stay and the error is kept as
/// the fault.
pub open spec fn transferred(
    before: BusLog,
    after: BusLog,
    transfer: Transfer,
    r: Result<(), DisplayError>,
) -> bool {
    match r {
        Ok(_) => after.sent == before.sent.push(transfer) && after.fault == before.fault,
        Err(e) => after.sent == before.sent && after.fault == Some(e),
    }
}

/// A write-only transport with separate command and data phases.
///
/// An implementation accounts for what it does in its log: a transfer that it completes is
/// appended to the transfers sent, with its phase and the bytes as they went over the wire,
/// and the error of a transfer that it fails is kept as the fault. Whether a transfer
/// succeeds is the transport's affair; nothing here promises it. The driver's contracts are
/// stated over the log, so they hold of a transport as far as its log is true to it.
pub trait AsyncWriteOnlyDataCommand: Sized {
    /// The log of this transport.
    spec fn log(&self) -> BusLog;

    /// Sends `cmd` in the command phase.
    fn send_commands(&mut self, cmd: DataFormat<'_>) -> (r: Result<(), DisplayError>)
        ensures
            transferred(
                old(self).log(),
                final(self).log(),
                (Transfer { phase: Phase::Command, bytes: cmd.wire_bytes() }),
                r,
            ),
    ;

    /// Sends `buf` in the data phase.
    fn send_data(&mut self, buf: DataFormat<'_>) -> (r: Result<(), DisplayError>)
        ensures
            transferred(
                old(self).log(),
                final(self).log(),
                (Transfer { phase: Phase::Data, bytes: buf.wire_bytes() }),
                r,
            ),
    ;
}

/// `after` is `before` followed by a proper prefix of `plan`: the plan was begun and given up
/// before its last transfer completed.
pub open spec fn stopped_within(
    before: Seq<Transfer>,
    after: Seq<Transfer>,
    plan: Seq<Transfer>,
) -> bool {
    &&& before.len() <= after.len() < before.len() + plan.len()
    &&& after == before + plan.take(after.len() - before.len())
}

/// What an operation that sends the transfers of `plan` in order does to a transport's log.
///
/// On success every transfer of the plan has been appended, in order, and nothing else. On
/// failure the operation stopped at the first transfer that failed: those before it are
/// appended, none after it was attempted, and the error returned is that transfer's.
pub open spec fn carried_out(
    before: BusLog,
    after: BusLog,
    plan: Seq<Transfer>,
    r: Result<(), DisplayError>,
) -> bool {
    match r {
        Ok(_) => after.sent == before.sent + plan && after.fault == before.fault,
        Err(e) => stopped_within(before.sent, after.sent, plan) && after.fault == Some(e),
    }
}

/// One attempted transfer carries out the plan that consists of it.
pub proof fn lemma_single(
    before: BusLog,
    after: BusLog,
    transfer: Transfer,
    r: Result<(), DisplayError>,
)
    requires
        transferred(before, after, transfer, r),
    ensures
        carried_out(before, after, seq![transfer], r),
{
    let plan = seq![transfer];
    if r is Ok {
        assert(before.sent.push(transfer) =~= before.sent + plan);
    } else {
        assert(before.sent =~= before.sent + plan.take(0));
    }
}

/// A plan that failed also failed as the beginning of a longer plan.
pub proof fn lemma_stopped_early(
    before: BusLog,
    after: BusLog,
    plan: Seq<Transfer>,
    rest: Seq<Transfer>,
    r: Result<(), DisplayError>,
)
    requires
        r is Err,
        carried_out(before, after, plan, r),
    ensures
        carried_out(before, after, plan + rest, r),
{
    let n = after.sent.len() - before.sent.len();
    assert(plan.take(n) =~= (plan + rest).take(n));
}

/// A plan carried out in full, followed by an attempt at a second plan, is an attempt at the
/// two plans joined.
pub proof fn lemma_continued(
    before: BusLog,
    between: BusLog,
    after: BusLog,
    plan: Seq<Transfer>,
    rest: Seq<Transfer>,
    r: Result<(), DisplayError>,
)
    requires
        carried_out(before, between, plan, Ok(())),
        carried_out(between, after, rest, r),
    ensures
        carried_out(before, after, plan + rest, r),
{
    if r is Ok {
        assert(before.sent + plan + rest =~= before.sent + (plan + rest));
    } else {
        let n = after.sent.len() - between.sent.len();
        assert(before.sent + plan + rest.take(n) =~= before.sent + (plan + rest).take(
            plan.len() + n,
        ));
    }
}

} // verus!
