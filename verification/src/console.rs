//! Console sink: a fixed-capacity byte buffer that batches formatted output
//! into a burst of firmware calls.
//!
//! Writes beyond the capacity are silently dropped; this is a deliberate,
//! documented simplification, not a delivery guarantee. Flushing drains the
//! buffered bytes to the firmware console one call per byte, in order, and
//! empties the buffer.

use vstd::prelude::*;
use vstd::string::StringSliceAdditionalSpecFns;
use crate::sbi::{put_char, Firmware};

verus! {

/// Capacity of a console buffer, in bytes.
pub const BUFFER_SIZE: usize = 128;

/// Newline byte appended after each printed line.
pub const NEWLINE: u8 = 0x0a;

/// The effect of one buffered write: the byte is appended if capacity
/// remains, and dropped otherwise.
pub open spec fn write_spec(buf: Seq<u8>, byte: u8) -> Seq<u8> {
    if buf.len() < BUFFER_SIZE {
        buf.push(byte)
    } else {
        buf
    }
}

/// The effect of writing a sequence of bytes one at a time.
pub open spec fn write_bytes_spec(buf: Seq<u8>, bytes: Seq<u8>) -> Seq<u8>
    decreases bytes.len(),
{
    if bytes.len() == 0 {
        buf
    } else {
        write_bytes_spec(write_spec(buf, bytes[0]), bytes.drop_first())
    }
}

/// What one printed line delivers to the firmware console: the rendered text
/// followed by a newline, subject to the buffer capacity.
pub open spec fn line_bytes(text: Seq<u8>) -> Seq<u8> {
    write_spec(write_bytes_spec(Seq::<u8>::empty(), text), NEWLINE)
}

/// Fixed-capacity byte storage plus the next free offset. Created fresh per
/// formatted-output call, written, flushed, and discarded.
pub struct Buffer {
    data: Vec<u8>,
    pos: usize,
}

impl View for Buffer {
    type V = Seq<u8>;

    /// A buffer is viewed as the bytes written so far and not yet flushed.
    closed spec fn view(&self) -> Seq<u8> {
        self.data@.take(self.pos as int)
    }
}

impl Buffer {
    /// The storage always spans the full capacity and the cursor stays within
    /// it.
    pub closed spec fn wf(self) -> bool {
        self.data@.len() == BUFFER_SIZE && self.pos <= BUFFER_SIZE
    }

    /// An empty buffer with full capacity free.
    pub fn new() -> (b: Buffer)
        ensures
            b.wf(),
            b@ == Seq::<u8>::empty(),
    {
        let mut data: Vec<u8> = Vec::new();
        while data.len() < BUFFER_SIZE
            invariant
                data@.len() <= BUFFER_SIZE,
            decreases BUFFER_SIZE - data@.len(),
        {
            data.push(0);
        }
        let b = Buffer { data, pos: 0 };
        assert(b@ =~= Seq::<u8>::empty());
        b
    }

    /// Append one byte if capacity remains; drop it otherwise.
    pub fn write(&mut self, byte: u8)
        requires
            old(self).wf(),
        ensures
            final(self).wf(),
            final(self)@ == write_spec(old(self)@, byte),
    {
        if self.pos < BUFFER_SIZE {
            self.data[self.pos] = byte;
            self.pos = self.pos + 1;
            assert(self@ =~= old(self)@.push(byte));
        }
    }

    /// Append the given bytes one at a time, dropping any past capacity.
    pub fn write_bytes(&mut self, bytes: &[u8])
        requires
            old(self).wf(),
        ensures
            final(self).wf(),
            final(self)@ == write_bytes_spec(old(self)@, bytes@),
    {
        let ghost base = self@;
        for i in 0..bytes.len()
            invariant
                self.wf(),
                self@ == write_bytes_spec(base, bytes@.take(i as int)),
        {
            self.write(bytes[i]);
            proof {
                lemma_write_bytes_spec_snoc(base, bytes@.take(i as int), bytes@[i as int]);
                assert(bytes@.take(i + 1) =~= bytes@.take(i as int).push(bytes@[i as int]));
            }
        }
        assert(bytes@.take(bytes@.len() as int) =~= bytes@);
    }

    /// Append the bytes of a string, dropping any past capacity.
    pub fn write_str(&mut self, s: &str)
        requires
            old(self).wf(),
        ensures
            final(self).wf(),
            final(self)@ == write_bytes_spec(old(self)@, s.spec_bytes()),
    {
        self.write_bytes(s.as_bytes());
    }

    /// Deliver the buffered bytes to the firmware console, one call per byte
    /// in buffer order, then reset the buffer to empty.
    pub fn flush(&mut self, fw: &mut Firmware)
        requires
            old(self).wf(),
        ensures
            final(self).wf(),
            final(self)@ == Seq::<u8>::empty(),
            final(fw).console@ == old(fw).console@ + old(self)@,
    {
        let ghost base = fw.console@;
        for i in 0..self.pos
            invariant
                self.wf(),
                self == old(self),
                fw.console@ == base + self.data@.take(i as int),
        {
            put_char(fw, self.data[i]);
            assert(self.data@.take(i + 1) =~= self.data@.take(i as int).push(self.data@[i as int]));
        }
        self.pos = 0;
        assert(self@ =~= Seq::<u8>::empty());
    }
}

/// Render one line of text through a fresh buffer: write the text, a trailing
/// newline, and flush, delivering the line to the firmware console in a
/// single burst.
pub fn print_line(fw: &mut Firmware, text: &str)
    ensures
        final(fw).console@ == old(fw).console@ + line_bytes(text.spec_bytes()),
{
    let mut buffer = Buffer::new();
    buffer.write_str(text);
    buffer.write(NEWLINE);
    buffer.flush(fw);
}

/// Writing one more byte after a run of writes is the same as extending the
/// run by that byte.
proof fn lemma_write_bytes_spec_snoc(buf: Seq<u8>, bytes: Seq<u8>, byte: u8)
    ensures
        write_bytes_spec(buf, bytes.push(byte)) == write_spec(write_bytes_spec(buf, bytes), byte),
    decreases bytes.len(),
{
    if bytes.len() == 0 {
        assert(bytes.push(byte)[0] == byte);
        assert(bytes.push(byte).drop_first() =~= Seq::<u8>::empty());
        assert(write_bytes_spec(buf, bytes.push(byte)) == write_bytes_spec(
            write_spec(buf, byte),
            Seq::<u8>::empty(),
        ));
        assert(write_bytes_spec(buf, bytes) == buf);
    } else {
        assert(bytes.push(byte)[0] == bytes[0]);
        assert(bytes.push(byte).drop_first() =~= bytes.drop_first().push(byte));
        assert(write_bytes_spec(buf, bytes.push(byte)) == write_bytes_spec(
            write_spec(buf, bytes[0]),
            bytes.drop_first().push(byte),
        ));
        lemma_write_bytes_spec_snoc(write_spec(buf, bytes[0]), bytes.drop_first(), byte);
        assert(write_bytes_spec(buf, bytes) == write_bytes_spec(
            write_spec(buf, bytes[0]),
            bytes.drop_first(),
        ));
    }
}

/// Console buffer delivery law: flushing after writing `bytes` into a fresh
/// buffer delivers the bytes themselves when they fit the capacity, and
/// exactly the first `BUFFER_SIZE` of them when they do not — `k` firmware
/// calls for `k` bytes written with `k <= BUFFER_SIZE`, `BUFFER_SIZE` calls
/// otherwise.
pub proof fn lemma_console_buffer_delivery(bytes: Seq<u8>)
    ensures
        bytes.len() <= BUFFER_SIZE ==> write_bytes_spec(Seq::<u8>::empty(), bytes) == bytes,
        bytes.len() > BUFFER_SIZE ==> write_bytes_spec(Seq::<u8>::empty(), bytes) == bytes.take(
            BUFFER_SIZE as int,
        ),
{
    lemma_write_bytes_spec_fill(Seq::<u8>::empty(), bytes);
    if bytes.len() <= BUFFER_SIZE {
        assert(Seq::<u8>::empty() + bytes.take(bytes.len() as int) =~= bytes);
    } else {
        assert(Seq::<u8>::empty() + bytes.take(BUFFER_SIZE as int) =~= bytes.take(
            BUFFER_SIZE as int,
        ));
    }
}

/// General form of the delivery law: writes fill the free capacity and the
/// rest is dropped.
proof fn lemma_write_bytes_spec_fill(buf: Seq<u8>, bytes: Seq<u8>)
    requires
        buf.len() <= BUFFER_SIZE,
    ensures
        write_bytes_spec(buf, bytes) == buf + bytes.take(
            if bytes.len() <= BUFFER_SIZE - buf.len() {
                bytes.len() as int
            } else {
                BUFFER_SIZE - buf.len()
            },
        ),
    decreases bytes.len(),
{
    if bytes.len() == 0 {
        assert(buf + bytes.take(0) =~= buf);
    } else if buf.len() < BUFFER_SIZE {
        lemma_write_bytes_spec_fill(buf.push(bytes[0]), bytes.drop_first());
        let m = if bytes.len() <= BUFFER_SIZE - buf.len() {
            bytes.len() as int
        } else {
            BUFFER_SIZE - buf.len()
        };
        assert(buf.push(bytes[0]) + bytes.drop_first().take(m - 1) =~= buf + bytes.take(m));
    } else {
        lemma_write_bytes_spec_fill(buf, bytes.drop_first());
        assert(buf + bytes.drop_first().take(0) =~= buf + bytes.take(0));
    }
}

} // verus!
