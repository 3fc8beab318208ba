//! What a transfer means on an SPI bus with a data/command selector line.
//!
//! The bus itself is driven elsewhere. Here a transfer is turned into the steps to take on
//! the bus, in order: the level to put on the selector line, then the writes to make.

use vstd::prelude::*;
use vstd::arithmetic::div_mod::{
    lemma_fundamental_div_mod, lemma_fundamental_div_mod_converse, lemma_mod_bound,
};
use vstd::arithmetic::mul::{
    lemma_mul_inequality, lemma_mul_is_commutative, lemma_mul_is_distributive_add_other_way,
};
use crate::async_interface::{
    big_endian, bytes_of_words, high_byte, little_endian, low_byte, lower_byte, upper_byte,
    DataFormat, DisplayError, Phase,
};

verus! {

/// A level of the selector line.
#[derive(Clone, Copy, Debug, PartialEq, Eq, Structural)]
pub enum PinLevel {
    Low,
    High,
}

/// One step on the bus, as a value to reason about.
pub enum BusStep {
    /// Put the selector line at a level.
    Select(PinLevel),
    /// Write bytes in one bus transaction.
    Write(Seq<u8>),
}

/// One step on the bus.
#[derive(Debug)]
pub enum SpiStep {
    /// Put the selector line at a level.
    Select(PinLevel),
    /// Write bytes in one bus transaction.
    Write(Vec<u8>),
}

impl View for SpiStep {
    type V = BusStep;

    open spec fn view(&self) -> BusStep {
        match self {
            SpiStep::Select(level) => BusStep::Select(*level),
            SpiStep::Write(bytes) => BusStep::Write(bytes@),
        }
    }
}

impl SpiStep {
    /// The error to report when this step fails: the selector line could not be switched, or
    /// the bus did not take the bytes.
    pub fn failure(&self) -> (r: DisplayError)
        ensures
            r == match self@ {
                BusStep::Select(_) => DisplayError::DCError,
                BusStep::Write(_) => DisplayError::BusWriteError,
            },
    {
        match self {
            SpiStep::Select(_) => DisplayError::DCError,
            SpiStep::Write(_) => DisplayError::BusWriteError,
        }
    }
}

/// The most bytes of a byte stream that go into one write.
pub const BYTE_CHUNK: usize = 64;

/// The most bytes of a word stream that go into one write.
pub const WORD_CHUNK: usize = 128;

/// The level of the selector line during a transfer of `phase`.
pub open spec fn selector_level(phase: Phase) -> PinLevel {
    match phase {
        Phase::Command => PinLevel::Low,
        Phase::Data => PinLevel::High,
    }
}

/// `bytes` cut into pieces of `size` bytes; the last piece holds what is left and may be
/// shorter. No piece is empty.
pub open spec fn chunked(bytes: Seq<u8>, size: int) -> Seq<Seq<u8>>
    recommends
        size > 0,
{
    Seq::new(
        ((bytes.len() + size - 1) / size) as nat,
        |i: int|
            bytes.subrange(
                i * size,
                if (i + 1) * size <= bytes.len() {
                    (i + 1) * size
                } else {
                    bytes.len() as int
                },
            ),
    )
}

/// Each word as a write of its own, of two bytes, the more significant one first if
/// `high_first` and last if not.
pub open spec fn word_writes(words: Seq<u16>, high_first: bool) -> Seq<Seq<u8>> {
    Seq::new(
        words.len(),
        |i: int|
            if high_first {
                seq![high_byte(words[i]), low_byte(words[i])]
            } else {
                seq![low_byte(words[i]), high_byte(words[i])]
            },
    )
}

/// The writes that carry `data`, in order. A slice of bytes goes in one write, a slice of
/// words in one write for each word, and a stream in pieces of bounded size.
pub open spec fn spi_writes(data: DataFormat<'_>) -> Seq<Seq<u8>> {
    match data {
        DataFormat::U8(bytes) => seq![bytes@],
        DataFormat::U16(words) => word_writes(words@, true),
        DataFormat::U16BE(words) => word_writes(words@, true),
        DataFormat::U16LE(words) => word_writes(words@, false),
        DataFormat::U8Iter(bytes) => chunked(bytes@, BYTE_CHUNK as int),
        DataFormat::U16BEIter(words) => chunked(big_endian(words@), WORD_CHUNK as int),
        DataFormat::U16LEIter(words) => chunked(little_endian(words@), WORD_CHUNK as int),
    }
}

/// The steps of a transfer of `data` in `phase`: the selector line, then the writes.
pub open spec fn spi_steps(phase: Phase, data: DataFormat<'_>) -> Seq<BusStep> {
    Seq::new(
        1 + spi_writes(data).len(),
        |i: int|
            if i == 0 {
                BusStep::Select(selector_level(phase))
            } else {
                BusStep::Write(spi_writes(data)[i - 1])
            },
    )
}

/// The bytes of `writes`, one write after the other.
pub open spec fn joined(writes: Seq<Seq<u8>>) -> Seq<u8>
    decreases writes.len(),
{
    if writes.len() == 0 {
        seq![]
    } else {
        joined(writes.drop_last()) + writes.last()
    }
}

/// The first `count` pieces of `bytes` hold its first `count * size` bytes, or all of them
/// where it has fewer.
proof fn lemma_joined_pieces(bytes: Seq<u8>, size: int, count: int)
    requires
        size > 0,
        0 <= count <= chunked(bytes, size).len(),
    ensures
        joined(chunked(bytes, size).take(count)) == bytes.take(
            if count * size <= bytes.len() {
                count * size
            } else {
                bytes.len() as int
            },
        ),
    decreases count,
{
    let pieces = chunked(bytes, size);
    let total = bytes.len() + size - 1;
    lemma_fundamental_div_mod(total, size);
    lemma_mod_bound(total, size);
    assert(size * pieces.len() <= total < size * pieces.len() + size);
    if count == 0 {
        assert(count * size == 0) by (nonlinear_arith)
            requires
                count == 0,
        ;
        assert(joined(pieces.take(count)) =~= bytes.take(0));
    } else {
        lemma_joined_pieces(bytes, size, count - 1);
        lemma_mul_is_distributive_add_other_way(size, count - 1, 1);
        lemma_mul_inequality(count, pieces.len() as int, size);
        lemma_mul_is_commutative(size, pieces.len() as int);
        assert((count - 1) * size + size == count * size);
        assert((count - 1) * size < bytes.len());
        assert(pieces.take(count).drop_last() =~= pieces.take(count - 1));
        assert(pieces.take(count).last() == pieces[count - 1]);
        let end = if count * size <= bytes.len() {
            count * size
        } else {
            bytes.len() as int
        };
        assert(bytes.take((count - 1) * size) + bytes.subrange((count - 1) * size, end)
            =~= bytes.take(end));
    }
}

/// The pieces of `bytes`, joined, are `bytes`.
proof fn lemma_joined_chunks(bytes: Seq<u8>, size: int)
    requires
        size > 0,
    ensures
        joined(chunked(bytes, size)) == bytes,
{
    let pieces = chunked(bytes, size);
    let count = pieces.len() as int;
    let total = bytes.len() + size - 1;
    lemma_fundamental_div_mod(total, size);
    lemma_mod_bound(total, size);
    lemma_mul_is_commutative(size, count);
    lemma_joined_pieces(bytes, size, count);
    assert(pieces.take(count) =~= pieces);
    assert(bytes.take(bytes.len() as int) =~= bytes);
}

/// The writes of `words`, joined, are the bytes of the words in the same byte order.
proof fn lemma_joined_words(words: Seq<u16>, high_first: bool)
    ensures
        joined(word_writes(words, high_first)) == if high_first {
            big_endian(words)
        } else {
            little_endian(words)
        },
    decreases words.len(),
{
    let writes = word_writes(words, high_first);
    if words.len() == 0 {
        assert(joined(writes) =~= big_endian(words));
        assert(joined(writes) =~= little_endian(words));
    } else {
        lemma_joined_words(words.drop_last(), high_first);
        assert(writes.drop_last() =~= word_writes(words.drop_last(), high_first));
        if high_first {
            assert(big_endian(words.drop_last()) + writes.last() =~= big_endian(words));
        } else {
            assert(little_endian(words.drop_last()) + writes.last() =~= little_endian(words));
        }
    }
}

/// However `data` is cut into writes, the writes carry, joined, the bytes that the data
/// stands for on the wire.
pub proof fn lemma_writes_carry_wire_bytes(data: DataFormat<'_>)
    ensures
        joined(spi_writes(data)) == data.wire_bytes(),
{
    match data {
        DataFormat::U8(bytes) => {
            let whole = seq![bytes@];
            assert(whole.drop_last() =~= Seq::<Seq<u8>>::empty());
            assert(joined(whole.drop_last()) =~= Seq::<u8>::empty());
            assert(whole.last() == bytes@);
            assert(joined(whole) =~= bytes@);
        },
        DataFormat::U16(words) => lemma_joined_words(words@, true),
        DataFormat::U16BE(words) => lemma_joined_words(words@, true),
        DataFormat::U16LE(words) => lemma_joined_words(words@, false),
        DataFormat::U8Iter(bytes) => lemma_joined_chunks(bytes@, BYTE_CHUNK as int),
        DataFormat::U16BEIter(words) => lemma_joined_chunks(big_endian(words@), WORD_CHUNK as int),
        DataFormat::U16LEIter(words) => lemma_joined_chunks(
            little_endian(words@),
            WORD_CHUNK as int,
        ),
    }
}

/// `writes` as steps: one write step for each.
pub open spec fn write_steps(writes: Seq<Seq<u8>>) -> Seq<BusStep> {
    Seq::new(writes.len(), |i: int| BusStep::Write(writes[i]))
}

/// What `steps` are, as values to reason about.
pub open spec fn steps_view(steps: Seq<SpiStep>) -> Seq<BusStep> {
    Seq::new(steps.len(), |i: int| steps[i]@)
}

/// The number of pieces into which `full` whole pieces and `rest` more bytes are cut.
proof fn lemma_piece_count(full: int, rest: int, size: int)
    requires
        0 <= full,
        0 <= rest < size,
    ensures
        (full * size + rest + size - 1) / size == if rest > 0 {
            full + 1
        } else {
            full
        },
{
    if rest > 0 {
        lemma_mul_is_distributive_add_other_way(size, full, 1);
        lemma_fundamental_div_mod_converse(full * size + rest + size - 1, size, full + 1, rest - 1);
    } else {
        lemma_fundamental_div_mod_converse(full * size + rest + size - 1, size, full, size - 1);
    }
}

/// Cuts `bytes` into writes of `size` bytes, filling one write after the other.
fn chunks(bytes: &[u8], size: usize) -> (r: Vec<SpiStep>)
    requires
        size > 0,
    ensures
        steps_view(r@) == write_steps(chunked(bytes@, size as int)),
{
    let mut writes: Vec<SpiStep> = Vec::new();
    let mut buffer: Vec<u8> = Vec::new();
    let mut i: usize = 0;
    let ghost mut base: int = 0;
    assert(writes@.len() * size == 0) by (nonlinear_arith)
        requires
            writes@.len() == 0,
    ;
    while i < bytes.len()
        invariant
            i <= bytes.len(),
            size > 0,
            base == writes@.len() * size,
            base + buffer@.len() == i,
            buffer@.len() < size,
            buffer@ == bytes@.subrange(base, i as int),
            forall|j: int|
                0 <= j < writes@.len() ==> (#[trigger] writes@[j])@ == BusStep::Write(
                    bytes@.subrange(j * size, j * size + size),
                ),
        decreases bytes.len() - i,
    {
        buffer.push(bytes[i]);
        i += 1;
        assert(buffer@ =~= bytes@.subrange(base, i as int));
        if buffer.len() == size {
            let ghost full = writes@.len() as int;
            writes.push(SpiStep::Write(buffer));
            buffer = Vec::new();
            proof {
                lemma_mul_is_distributive_add_other_way(size as int, full, 1);
                base = base + size;
                assert(buffer@ =~= bytes@.subrange(base, i as int));
            }
        }
    }
    let ghost full = writes@.len() as int;
    let ghost rest = buffer@.len() as int;
    if buffer.len() > 0 {
        writes.push(SpiStep::Write(buffer));
    }
    proof {
        lemma_piece_count(full, rest, size as int);
        let cut = write_steps(chunked(bytes@, size as int));
        assert(steps_view(writes@).len() == cut.len());
        assert forall|j: int| 0 <= j < cut.len() implies steps_view(writes@)[j] == cut[j] by {
            if j < full {
                lemma_mul_inequality(j + 1, full, size as int);
            }
            lemma_mul_is_distributive_add_other_way(size as int, j, 1);
        }
        assert(steps_view(writes@) =~= cut);
    }
    writes
}

/// One write of two bytes for each word.
fn writes_of_words(words: &[u16], high_first: bool) -> (r: Vec<SpiStep>)
    ensures
        steps_view(r@) == write_steps(word_writes(words@, high_first)),
{
    let mut writes: Vec<SpiStep> = Vec::new();
    let mut i: usize = 0;
    while i < words.len()
        invariant
            i <= words.len(),
            writes@.len() == i,
            steps_view(writes@) == write_steps(word_writes(words@.take(i as int), high_first)),
        decreases words.len() - i,
    {
        let word = words[i];
        let mut buffer: Vec<u8> = Vec::new();
        if high_first {
            buffer.push(upper_byte(word));
            buffer.push(lower_byte(word));
            assert(buffer@ =~= seq![high_byte(word), low_byte(word)]);
        } else {
            buffer.push(lower_byte(word));
            buffer.push(upper_byte(word));
            assert(buffer@ =~= seq![low_byte(word), high_byte(word)]);
        }
        let ghost earlier = steps_view(writes@);
        writes.push(SpiStep::Write(buffer));
        i += 1;
        assert forall|j: int| 0 <= j < i implies steps_view(writes@)[j] == write_steps(
            word_writes(words@.take(i as int), high_first),
        )[j] by {
            if j < i - 1 {
                assert(steps_view(writes@)[j] == earlier[j]);
            }
        }
        assert(steps_view(writes@) =~= write_steps(
            word_writes(words@.take(i as int), high_first),
        ));
    }
    assert(words@.take(i as int) =~= words@);
    writes
}

/// The writes that carry `data`, in order.
fn writes_of(data: &DataFormat<'_>) -> (r: Vec<SpiStep>)
    ensures
        steps_view(r@) == write_steps(spi_writes(*data)),
{
    match data {
        DataFormat::U8(bytes) => {
            let mut writes: Vec<SpiStep> = Vec::new();
            writes.push(SpiStep::Write(vstd::slice::slice_to_vec(bytes)));
            assert(steps_view(writes@) =~= write_steps(seq![bytes@]));
            writes
        },
        DataFormat::U16(words) => writes_of_words(words, true),
        DataFormat::U16BE(words) => writes_of_words(words, true),
        DataFormat::U16LE(words) => writes_of_words(words, false),
        DataFormat::U8Iter(bytes) => chunks(bytes, BYTE_CHUNK),
        DataFormat::U16BEIter(words) => chunks(bytes_of_words(words, true).as_slice(), WORD_CHUNK),
        DataFormat::U16LEIter(words) => chunks(bytes_of_words(words, false).as_slice(), WORD_CHUNK),
    }
}

/// The steps of a transfer of `data` in `phase`.
fn steps_of(phase: Phase, data: &DataFormat<'_>) -> (r: Vec<SpiStep>)
    ensures
        r@.len() == 1 + spi_writes(*data).len(),
        steps_view(r@) == spi_steps(phase, *data),
{
    let level = match phase {
        Phase::Command => PinLevel::Low,
        Phase::Data => PinLevel::High,
    };
    let mut writes = writes_of(data);
    let ghost planned = writes@;
    let mut steps: Vec<SpiStep> = Vec::new();
    steps.push(SpiStep::Select(level));
    steps.append(&mut writes);
    assert(steps@.len() == 1 + planned.len());
    assert(steps_view(planned).len() == spi_writes(*data).len());
    assert forall|j: int| 0 <= j < steps@.len() implies steps_view(steps@)[j] == spi_steps(
        phase,
        *data,
    )[j] by {
        if j > 0 {
            assert(steps@[j] == planned[j - 1]);
            assert(steps_view(planned)[j - 1] == write_steps(spi_writes(*data))[j - 1]);
        }
    }
    assert(steps_view(steps@) =~= spi_steps(phase, *data));
    steps
}

/// A transport over an SPI device `spi` and a selector line `dc`.
pub struct AsyncSPIInterface<SPI, DC> {
    spi: SPI,
    dc: DC,
}

impl<SPI, DC> AsyncSPIInterface<SPI, DC> {
    /// The SPI device.
    pub closed spec fn device(self) -> SPI {
        self.spi
    }

    /// The selector line.
    pub closed spec fn selector(self) -> DC {
        self.dc
    }

    /// A transport over `spi` with `dc` as its selector line.
    pub fn new(spi: SPI, dc: DC) -> (r: Self)
        ensures
            r.device() == spi,
            r.selector() == dc,
    {
        Self { spi, dc }
    }

    /// Gives back the SPI device and the selector line.
    pub fn release(self) -> (r: (SPI, DC))
        ensures
            r.0 == self.device(),
            r.1 == self.selector(),
    {
        (self.spi, self.dc)
    }

    /// The SPI device and the selector line, to drive them.
    pub fn parts(&mut self) -> (r: (&mut SPI, &mut DC))
        ensures
            *r.0 == old(self).device(),
            *r.1 == old(self).selector(),
            final(self).device() == *final(r.0),
            final(self).selector() == *final(r.1),
    {
        (&mut self.spi, &mut self.dc)
    }

    /// The steps that send `cmd` in the command phase: selector low, then the writes.
    pub fn send_commands(&self, cmd: DataFormat<'_>) -> (r: Vec<SpiStep>)
        ensures
            r@.len() == 1 + spi_writes(cmd).len(),
            steps_view(r@) == spi_steps(Phase::Command, cmd),
    {
        steps_of(Phase::Command, &cmd)
    }

    /// The steps that send `buf` in the data phase: selector high, then the writes.
    pub fn send_data(&self, buf: DataFormat<'_>) -> (r: Vec<SpiStep>)
        ensures
            r@.len() == 1 + spi_writes(buf).len(),
            steps_view(r@) == spi_steps(Phase::Data, buf),
    {
        steps_of(Phase::Data, &buf)
    }
}

} // verus!
