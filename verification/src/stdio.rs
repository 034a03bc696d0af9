//! The console adapters: standard input with its one-byte lookahead, and
//! standard output.
//!
//! Nothing here touches the console hardware. An operation that needs a
//! transfer returns the step to perform ([`ReadStep`], [`RawReadStep`],
//! [`WriteStep`]); the kernel performs it under its own lock and reports the
//! outcome to the matching continuation.

use vstd::prelude::*;
use crate::error::IoError;

verus! {

/// The byte a terminal sends for the return key.
pub const CARRIAGE_RETURN: u8 = 0x0D;

/// The byte that ends a line for every reader above the console.
pub const LINE_FEED: u8 = 0x0A;

/// File type bits of a character device.
pub const S_IFCHR: u32 = 0o020000;

/// Mask of the file type bits within a mode.
pub const S_IFMT: u32 = 0o170000;

/// Mask of the permission bits within a mode.
pub const PERMISSION_MASK: u32 = 0o777;

/// Permission bits of standard input: readable by owner and group.
pub const STDIN_PERMISSIONS: u32 = 0o440;

/// Permission bits of standard output: writable by owner and group.
pub const STDOUT_PERMISSIONS: u32 = 0o220;

/// Readiness of a file-like object.
#[derive(Clone, Copy, Debug, PartialEq, Eq, Structural)]
pub struct PollState {
    /// A read would deliver data now.
    pub readable: bool,
    /// A write would be accepted now.
    pub writable: bool,
}

/// The metadata a file-like object reports about itself.
#[derive(Clone, Copy, Debug, PartialEq, Eq, Structural)]
pub struct FileStat {
    /// Inode number.
    pub st_ino: u64,
    /// Number of hard links.
    pub st_nlink: u32,
    /// File type in the high bits, permissions in the low nine.
    pub st_mode: u32,
}

/// What a raw, non-blocking console read does next.
#[derive(Clone, Copy, Debug, PartialEq, Eq, Structural)]
pub enum RawReadStep {
    /// Ask the console for bytes for the part of the buffer that starts at `offset`.
    Fetch { offset: usize },
    /// The read is over; the buffer holds this many bytes.
    Done(usize),
}

/// What a blocking read of standard input does next.
#[derive(Clone, Copy, Debug, PartialEq, Eq, Structural)]
pub enum ReadStep {
    /// The read is over; the buffer holds this many bytes.
    Done(usize),
    /// Attempt one buffered console read into the part of the buffer that
    /// starts at `offset`, then resume with the number of bytes it gave.
    Fetch { offset: usize },
    /// Nothing has arrived: release every lock, yield to the scheduler, then
    /// attempt the console read again for the whole buffer.
    Yield,
}

/// What a write to the console does next.
#[derive(Clone, Copy, Debug)]
pub enum WriteStep<'a> {
    /// The write is over with this count; the console is not involved.
    Done(usize),
    /// Hand these bytes, as they are, to the console writer. The write is
    /// over with their number as its count.
    Emit(&'a [u8]),
}

/// The byte handed to readers for the raw byte `b`: a carriage return becomes
/// a line feed, every other byte is kept.
pub open spec fn normalized_byte(b: u8) -> u8 {
    if b == CARRIAGE_RETURN {
        LINE_FEED
    } else {
        b
    }
}

/// The bytes handed to readers for a console transfer that filled the first
/// `len` bytes of `raw`: those are normalized, the rest is kept.
pub open spec fn normalized(raw: Seq<u8>, len: int) -> Seq<u8> {
    Seq::new(
        raw.len(),
        |i: int|
            if i < len {
                normalized_byte(raw[i])
            } else {
                raw[i]
            },
    )
}

/// Copies what the console delivered into the caller's buffer and rewrites
/// the carriage returns among the `len` bytes received to line feeds.
///
/// `kernel_buf` is the kernel-side buffer the console filled; it has the
/// length of `buf`. Returns `len`.
pub fn console_read_bytes(buf: &mut [u8], kernel_buf: &[u8], len: usize) -> (count: usize)
    requires
        kernel_buf@.len() == old(buf)@.len(),
        len <= kernel_buf@.len(),
    ensures
        count == len,
        final(buf)@ == normalized(kernel_buf@, len as int),
{
    let n = buf.len();
    let mut i: usize = 0;
    while i < n
        invariant
            n == buf@.len(),
            n == kernel_buf@.len(),
            len <= n,
            i <= n,
            forall|j: int| 0 <= j < i ==> buf@[j] == normalized(kernel_buf@, len as int)[j],
        decreases n - i,
    {
        let b = kernel_buf[i];
        if i < len && b == CARRIAGE_RETURN {
            buf[i] = LINE_FEED;
        } else {
            buf[i] = b;
        }
        i += 1;
    }
    assert(buf@ =~= normalized(kernel_buf@, len as int));
    len
}

/// Decides how `buf` goes out to the console: an empty buffer is complete
/// without the console, any other is emitted whole and unmodified.
pub fn console_write_bytes<'a>(buf: &'a [u8]) -> (step: WriteStep<'a>)
    ensures
        buf@.len() == 0 ==> step == WriteStep::Done(0),
        buf@.len() > 0 ==> step == WriteStep::Emit(buf),
{
    if buf.len() == 0 {
        WriteStep::Done(0)
    } else {
        WriteStep::Emit(buf)
    }
}

/// The count with which a write step completes.
pub open spec fn spec_write_count(step: WriteStep) -> int {
    match step {
        WriteStep::Done(n) => n as int,
        WriteStep::Emit(bytes) => bytes@.len() as int,
    }
}

/// The raw console reader: a non-blocking read that keeps asking the console
/// until the buffer is full or the console has nothing more.
pub struct StdinRaw;

impl StdinRaw {
    /// The step after `fetched` more bytes arrived, with `read_len` bytes
    /// in a buffer of `buf_len` before them.
    pub open spec fn spec_advance(read_len: int, buf_len: int, fetched: int) -> RawReadStep {
        if fetched == 0 || read_len + fetched >= buf_len {
            RawReadStep::Done((read_len + fetched) as usize)
        } else {
            RawReadStep::Fetch { offset: (read_len + fetched) as usize }
        }
    }

    /// Starts a non-blocking read into a buffer of `buf_len` bytes.
    pub fn read(&self, buf_len: usize) -> (step: RawReadStep)
        ensures
            buf_len == 0 ==> step == RawReadStep::Done(0),
            buf_len > 0 ==> step == (RawReadStep::Fetch { offset: 0 }),
    {
        if buf_len == 0 {
            RawReadStep::Done(0)
        } else {
            RawReadStep::Fetch { offset: 0 }
        }
    }

    /// Continues a non-blocking read after the console gave `fetched` bytes
    /// for the part of the buffer that starts at `read_len`: stops when the
    /// console gave nothing or the buffer is full, else asks again behind
    /// what has arrived.
    pub fn advance(&self, read_len: usize, buf_len: usize, fetched: usize) -> (step: RawReadStep)
        requires
            read_len + fetched <= buf_len,
        ensures
            step == Self::spec_advance(read_len as int, buf_len as int, fetched as int),
    {
        let total: usize = read_len + fetched;
        if fetched == 0 || total >= buf_len {
            RawReadStep::Done(total)
        } else {
            RawReadStep::Fetch { offset: total }
        }
    }
}

/// The raw console writer.
pub struct StdoutRaw;

impl StdoutRaw {
    /// Decides how `buf` goes out to the console.
    pub fn write<'a>(&self, buf: &'a [u8]) -> (step: WriteStep<'a>)
        ensures
            buf@.len() == 0 ==> step == WriteStep::Done(0),
            buf@.len() > 0 ==> step == WriteStep::Emit(buf),
    {
        console_write_bytes(buf)
    }

    /// The console keeps no output back: flushing changes nothing.
    pub fn flush(&self) {
    }
}

/// The one-byte cache between `poll` and `read` of standard input.
///
/// While `available` holds, `buffer` is a byte that a poll took from the
/// console and that no read has delivered yet.
pub struct StdinBuffer {
    buffer: u8,
    available: bool,
}

/// Standard input: descriptor 0.
pub struct Stdin {
    buffer: StdinBuffer,
}

/// Standard output: descriptors 1 and 2.
pub struct Stdout {}

/// The lookahead after a poll whose probe read gave `probe`.
pub open spec fn spec_poll_lookahead(lookahead: Option<u8>, probe: Option<u8>) -> Option<u8> {
    match probe {
        Some(b) => Some(b),
        None => lookahead,
    }
}

/// The caller's buffer after a read has delivered the lookahead into it.
pub open spec fn spec_read_delivered(lookahead: Option<u8>, buf: Seq<u8>) -> Seq<u8> {
    match lookahead {
        Some(b) if buf.len() > 0 => buf.update(0, b),
        _ => buf,
    }
}

/// The lookahead after a read into a buffer of `buf_len` bytes.
pub open spec fn spec_read_lookahead(lookahead: Option<u8>, buf_len: int) -> Option<u8> {
    if buf_len == 0 {
        lookahead
    } else {
        None
    }
}

/// The first step of a read into a buffer of `buf_len` bytes.
pub open spec fn spec_read_first_step(lookahead: Option<u8>, buf_len: int) -> ReadStep {
    if buf_len == 0 {
        ReadStep::Done(0)
    } else if lookahead is Some {
        ReadStep::Fetch { offset: 1 }
    } else {
        ReadStep::Fetch { offset: 0 }
    }
}

/// The step after a console read gave `fetched` bytes behind `offset` bytes
/// already in the buffer.
pub open spec fn spec_read_resume(offset: int, fetched: int) -> ReadStep {
    if offset + fetched > 0 {
        ReadStep::Done((offset + fetched) as usize)
    } else {
        ReadStep::Yield
    }
}

impl Stdin {
    /// The byte seen by a poll and not yet delivered by a read, if any.
    pub closed spec fn view(&self) -> Option<u8> {
        if self.buffer.available {
            Some(self.buffer.buffer)
        } else {
            None
        }
    }

    /// Starts a read that blocks until at least one byte is there.
    ///
    /// An empty buffer completes at once with 0 and leaves the lookahead
    /// alone. Otherwise a byte cached by `poll` goes to `buf[0]` and leaves
    /// the cache, and the next step is a console read for the rest.
    pub fn read_blocked(&mut self, buf: &mut [u8]) -> (step: ReadStep)
        ensures
            step == spec_read_first_step(old(self)@, old(buf)@.len() as int),
            final(buf)@ == spec_read_delivered(old(self)@, old(buf)@),
            final(self)@ == spec_read_lookahead(old(self)@, old(buf)@.len() as int),
    {
        if buf.len() == 0 {
            return ReadStep::Done(0);
        }
        if self.buffer.available {
            buf[0] = self.buffer.buffer;
            self.buffer.available = false;
            ReadStep::Fetch { offset: 1 }
        } else {
            ReadStep::Fetch { offset: 0 }
        }
    }

    /// Continues a blocking read after a console read gave `fetched` bytes
    /// behind the `offset` bytes already delivered: done with their sum if
    /// that is at least one byte, else yield and try again.
    pub fn read_resume(&self, offset: usize, fetched: usize) -> (step: ReadStep)
        requires
            offset + fetched <= usize::MAX,
        ensures
            step == spec_read_resume(offset as int, fetched as int),
    {
        let total: usize = offset + fetched;
        if total > 0 {
            ReadStep::Done(total)
        } else {
            ReadStep::Yield
        }
    }

    /// Reads as `read_blocked` does.
    pub fn read(&mut self, buf: &mut [u8]) -> (step: ReadStep)
        ensures
            step == spec_read_first_step(old(self)@, old(buf)@.len() as int),
            final(buf)@ == spec_read_delivered(old(self)@, old(buf)@),
            final(self)@ == spec_read_lookahead(old(self)@, old(buf)@.len() as int),
    {
        self.read_blocked(buf)
    }

    /// Standard input cannot be written to.
    pub fn write(&self, buf: &[u8]) -> (result: Result<usize, IoError>)
        ensures
            result == Err::<usize, IoError>(IoError::NotPermitted),
    {
        Err(IoError::NotPermitted)
    }

    /// A character device that owner and group may read.
    pub fn stat(&self) -> (st: FileStat)
        ensures
            st.st_ino == 1,
            st.st_nlink == 1,
            st.st_mode == S_IFCHR | STDIN_PERMISSIONS,
            st.st_mode & S_IFMT == S_IFCHR,
            st.st_mode & PERMISSION_MASK == STDIN_PERMISSIONS,
    {
        let st_mode: u32 = S_IFCHR | STDIN_PERMISSIONS;
        assert((0o020000u32 | 0o440u32) & 0o170000u32 == 0o020000u32) by (bit_vector);
        assert((0o020000u32 | 0o440u32) & 0o777u32 == 0o440u32) by (bit_vector);
        FileStat { st_ino: 1, st_nlink: 1, st_mode }
    }

    /// Records the outcome of the one-byte, non-blocking probe read of a
    /// poll. A byte obtained is kept for the next read and makes the
    /// descriptor readable; without one the cache stays as it was and the
    /// descriptor is not readable. `writable` is reported as `true` although
    /// nothing can be written here.
    pub fn poll(&mut self, probe: Option<u8>) -> (state: PollState)
        ensures
            state.readable == (probe is Some),
            state.writable,
            final(self)@ == spec_poll_lookahead(old(self)@, probe),
    {
        let readable = match probe {
            Some(b) => {
                self.buffer.buffer = b;
                self.buffer.available = true;
                true
            },
            None => false,
        };
        PollState { readable, writable: true }
    }

    /// Accepted and ignored: reads of standard input always block.
    pub fn set_nonblocking(&self, nonblocking: bool) -> (result: Result<(), IoError>)
        ensures
            result is Ok,
    {
        Ok(())
    }
}

impl Stdout {
    /// Standard output cannot be read from; the buffer is left alone.
    pub fn read(&self, buf: &mut [u8]) -> (result: Result<usize, IoError>)
        ensures
            result == Err::<usize, IoError>(IoError::NotPermitted),
            final(buf)@ == old(buf)@,
    {
        Err(IoError::NotPermitted)
    }

    /// Decides how `buf` goes out: an empty buffer is complete with 0 and
    /// without the console, any other is emitted whole and unmodified and
    /// counts in full.
    pub fn write<'a>(&self, buf: &'a [u8]) -> (step: WriteStep<'a>)
        ensures
            buf@.len() == 0 ==> step == WriteStep::Done(0),
            buf@.len() > 0 ==> step == WriteStep::Emit(buf),
            spec_write_count(step) == buf@.len(),
    {
        console_write_bytes(buf)
    }

    /// The console keeps no output back: flushing changes nothing.
    pub fn flush(&self) {
    }

    /// A character device that owner and group may write.
    pub fn stat(&self) -> (st: FileStat)
        ensures
            st.st_ino == 1,
            st.st_nlink == 1,
            st.st_mode == S_IFCHR | STDOUT_PERMISSIONS,
            st.st_mode & S_IFMT == S_IFCHR,
            st.st_mode & PERMISSION_MASK == STDOUT_PERMISSIONS,
    {
        let st_mode: u32 = S_IFCHR | STDOUT_PERMISSIONS;
        assert((0o020000u32 | 0o220u32) & 0o170000u32 == 0o020000u32) by (bit_vector);
        assert((0o020000u32 | 0o220u32) & 0o777u32 == 0o220u32) by (bit_vector);
        FileStat { st_ino: 1, st_nlink: 1, st_mode }
    }

    /// Never readable, always writable.
    pub fn poll(&self) -> (state: PollState)
        ensures
            !state.readable,
            state.writable,
    {
        PollState { readable: false, writable: true }
    }

    /// Accepted and ignored: writes to the console never block.
    pub fn set_nonblocking(&self, nonblocking: bool) -> (result: Result<(), IoError>)
        ensures
            result is Ok,
    {
        Ok(())
    }
}

/// A handle to standard input with an empty lookahead.
pub fn stdin() -> (handle: Stdin)
    ensures
        handle@ is None,
{
    Stdin { buffer: StdinBuffer { buffer: 0, available: false } }
}

/// A handle to standard output.
pub fn stdout() -> (handle: Stdout) {
    Stdout {  }
}

/// A byte that a poll reported is the first byte of the very next read:
/// whatever the lookahead held before, after a poll whose probe gave `b`, a
/// read into a non-empty buffer puts `b` at its start, empties the lookahead
/// and goes on behind that byte.
pub proof fn lemma_poll_then_read(lookahead: Option<u8>, b: u8, buf: Seq<u8>)
    requires
        buf.len() > 0,
    ensures
        spec_poll_lookahead(lookahead, Some(b)) == Some(b),
        spec_read_delivered(spec_poll_lookahead(lookahead, Some(b)), buf)[0] == b,
        spec_read_delivered(spec_poll_lookahead(lookahead, Some(b)), buf).len() == buf.len(),
        spec_read_lookahead(spec_poll_lookahead(lookahead, Some(b)), buf.len() as int) is None,
        spec_read_first_step(spec_poll_lookahead(lookahead, Some(b)), buf.len() as int)
            == (ReadStep::Fetch { offset: 1 }),
        spec_read_resume(1, 0) == ReadStep::Done(1),
{
}

/// A blocking read into a buffer that is not empty never completes with
/// nothing: its first step is a console read, a console read that leaves the
/// buffer without a byte is followed by a yield and another read, and when
/// the read completes it has at least one byte.
pub proof fn lemma_blocking_read_waits_for_data(
    lookahead: Option<u8>,
    buf_len: int,
    offset: int,
    fetched: int,
)
    requires
        buf_len > 0,
        0 <= offset <= usize::MAX,
        0 <= fetched <= usize::MAX - offset,
    ensures
        spec_read_first_step(lookahead, buf_len) is Fetch,
        spec_read_resume(offset, fetched) == ReadStep::Yield <==> offset + fetched == 0,
        spec_read_resume(offset, fetched) matches ReadStep::Done(n) ==> n >= 1 && n == offset
            + fetched,
        !(spec_read_resume(offset, fetched) is Fetch),
{
}

/// A raw read stays within its buffer: it never asks for bytes at or behind
/// the end, and it ends with no more bytes than the buffer has. It goes on
/// exactly while the console gives bytes and room is left.
pub proof fn lemma_raw_read_stays_in_buffer(read_len: int, buf_len: int, fetched: int)
    requires
        0 <= read_len,
        0 <= fetched,
        read_len + fetched <= buf_len <= usize::MAX,
    ensures
        StdinRaw::spec_advance(read_len, buf_len, fetched) matches RawReadStep::Fetch { offset }
            ==> offset == read_len + fetched && offset < buf_len && fetched > 0,
        StdinRaw::spec_advance(read_len, buf_len, fetched) matches RawReadStep::Done(n) ==> n
            == read_len + fetched && n <= buf_len && (fetched == 0 || n == buf_len),
{
}

/// Normalization keeps the length, turns every carriage return among the
/// bytes received into a line feed, leaves none among them, and keeps every
/// other byte.
pub proof fn lemma_normalized(raw: Seq<u8>, len: int)
    requires
        0 <= len <= raw.len(),
    ensures
        normalized(raw, len).len() == raw.len(),
        forall|i: int|
            0 <= i < len && raw[i] == CARRIAGE_RETURN ==> #[trigger] normalized(raw, len)[i]
                == LINE_FEED,
        forall|i: int|
            0 <= i < len && raw[i] != CARRIAGE_RETURN ==> #[trigger] normalized(raw, len)[i]
                == raw[i],
        forall|i: int| 0 <= i < len ==> #[trigger] normalized(raw, len)[i] != CARRIAGE_RETURN,
        forall|i: int| len <= i < raw.len() ==> #[trigger] normalized(raw, len)[i] == raw[i],
{
}

/// Normalizing twice is normalizing once.
pub proof fn lemma_normalized_idempotent(raw: Seq<u8>, len: int)
    requires
        0 <= len <= raw.len(),
    ensures
        normalized(normalized(raw, len), len) == normalized(raw, len),
{
    assert(normalized(normalized(raw, len), len) =~= normalized(raw, len));
}

/// A zero-length read or write completes with 0 and asks nothing of the
/// console, whatever the lookahead holds, and a zero-length read keeps it.
pub proof fn lemma_zero_length_transfers(lookahead: Option<u8>)
    ensures
        spec_read_first_step(lookahead, 0) == ReadStep::Done(0),
        spec_read_lookahead(lookahead, 0) == lookahead,
        spec_read_delivered(lookahead, Seq::<u8>::empty()) == Seq::<u8>::empty(),
{
}

} // verus!
