//! The byte pipe: a bounded FIFO of bytes that connects one writer task to
//! one reader task. Storage is `embassy_sync`'s `Pipe`; this module gives it
//! a sequence model and whole-message write and drain operations on top of
//! the crate's single-step `try_write` / `try_read`.

use vstd::prelude::*;
use vstd::slice::slice_subrange;
use embassy_sync::pipe::{Pipe, TryReadError, TryWriteError};
use embassy_sync::blocking_mutex::raw::NoopRawMutex;

verus! {

/// Number of bytes that one pipe can buffer.
pub const PIPE_CAPACITY: usize = 10;

/// A bounded byte queue held by exactly one owner at a time. The storage is
/// an `embassy_sync` pipe of `PIPE_CAPACITY` bytes, hidden from the verifier
/// and described by `pipe_bytes`.
#[verifier::external_body]
pub struct BytePipe {
    inner: Pipe<NoopRawMutex, 10>,
}

/// `embassy_sync::pipe::TryReadError`, carried through as an opaque value.
#[verifier::external_type_specification]
#[verifier::external_body]
pub struct ExTryReadError(TryReadError);

/// `embassy_sync::pipe::TryWriteError`, carried through as an opaque value.
#[verifier::external_type_specification]
#[verifier::external_body]
pub struct ExTryWriteError(TryWriteError);

/// The bytes buffered in a pipe, oldest first.
pub uninterp spec fn pipe_bytes(p: BytePipe) -> Seq<u8>;

/// `Pipe::new`: a fresh pipe buffers nothing.
#[verifier::external_body]
fn pipe_new() -> (p: BytePipe)
    ensures
        pipe_bytes(p) == Seq::<u8>::empty(),
{
    BytePipe { inner: Pipe::new() }
}

/// `Pipe::len`: the number of buffered bytes, which never exceeds the
/// capacity the pipe was declared with.
#[verifier::external_body]
fn pipe_len(p: &BytePipe) -> (n: usize)
    ensures
        n == pipe_bytes(*p).len(),
        n <= 10,
{
    p.inner.len()
}

/// `Pipe::try_write` on a pipe that the caller holds exclusively. A full
/// pipe refuses and is left as it was. Otherwise a prefix of `buf` is
/// appended behind what was buffered; the prefix is non-empty when `buf` is,
/// and is no longer than the free space, but may be shorter than both `buf`
/// and the free space (the crate copies one contiguous region of its ring).
#[verifier::external_body]
fn pipe_try_write(p: &mut BytePipe, buf: &[u8]) -> (r: Result<usize, TryWriteError>)
    ensures
        r.is_err() <==> pipe_bytes(*old(p)).len() >= 10,
        r.is_err() ==> pipe_bytes(*final(p)) == pipe_bytes(*old(p)),
        r.is_ok() ==> {
            let n = r.unwrap() as int;
            &&& n <= buf@.len()
            &&& (buf@.len() > 0 ==> n >= 1)
            &&& pipe_bytes(*old(p)).len() + n <= 10
            &&& pipe_bytes(*final(p)) == pipe_bytes(*old(p)) + buf@.subrange(0, n)
        },
{
    p.inner.try_write(buf)
}

/// `Pipe::try_read` on a pipe that the caller holds exclusively, reading
/// into `buf[off..]`. An empty pipe refuses and nothing changes. Otherwise
/// the oldest `n` bytes leave the pipe and land at `buf[off..off + n]`, the
/// rest of `buf` untouched; `n` is at least 1 when there is room in `buf`,
/// and may be smaller than both the room and the number of buffered bytes.
#[verifier::external_body]
fn pipe_try_read(p: &mut BytePipe, buf: &mut Vec<u8>, off: usize) -> (r: Result<usize, TryReadError>)
    requires
        off <= old(buf)@.len(),
    ensures
        final(buf)@.len() == old(buf)@.len(),
        r.is_err() <==> pipe_bytes(*old(p)).len() == 0,
        r.is_err() ==> pipe_bytes(*final(p)) == pipe_bytes(*old(p)) && final(buf)@ == old(buf)@,
        r.is_ok() ==> {
            let n = r.unwrap() as int;
            &&& off + n <= old(buf)@.len()
            &&& n <= pipe_bytes(*old(p)).len()
            &&& (off < old(buf)@.len() ==> n >= 1)
            &&& pipe_bytes(*final(p)) == pipe_bytes(*old(p)).skip(n)
            &&& final(buf)@ == old(buf)@.subrange(0, off as int)
                    + pipe_bytes(*old(p)).take(n)
                    + old(buf)@.subrange(off + n, old(buf)@.len() as int)
        },
{
    p.inner.try_read(&mut buf[off..])
}

impl View for BytePipe {
    type V = Seq<u8>;

    open spec fn view(&self) -> Seq<u8> {
        pipe_bytes(*self)
    }
}

impl BytePipe {
    /// An empty pipe.
    pub fn new() -> (p: Self)
        ensures
            p@ == Seq::<u8>::empty(),
    {
        pipe_new()
    }

    /// Number of bytes waiting in the pipe.
    pub fn len(&self) -> (n: usize)
        ensures
            n == self@.len(),
            n <= PIPE_CAPACITY,
    {
        pipe_len(self)
    }

    /// Enqueue all of `bytes` behind what is buffered, or nothing at all:
    /// the write goes through exactly when the free space holds the whole
    /// message. A refused write leaves the pipe as it was, so the writer can
    /// yield and offer the same message again.
    pub fn write(&mut self, bytes: &[u8]) -> (done: bool)
        ensures
            done <==> old(self)@.len() + bytes@.len() <= PIPE_CAPACITY,
            done ==> final(self)@ == old(self)@ + bytes@,
            !done ==> final(self)@ == old(self)@,
            final(self)@ == queue_after(old(self)@, PipeOp::Write(bytes@)),
    {
        let used: usize = pipe_len(self);
        if bytes.len() > PIPE_CAPACITY - used {
            return false;
        }
        let mut off: usize = 0;
        while off < bytes.len()
            invariant
                off <= bytes@.len(),
                old(self)@.len() + bytes@.len() <= 10,
                self@ == old(self)@ + bytes@.subrange(0, off as int),
            decreases bytes@.len() - off,
        {
            let rest = slice_subrange(bytes, off, bytes.len());
            let ghost before = self@;
            match pipe_try_write(self, rest) {
                Ok(n) => {
                    proof {
                        assert(bytes@.subrange(0, off + n) =~= bytes@.subrange(0, off as int)
                            + rest@.subrange(0, n as int));
                        assert(self@ =~= old(self)@ + bytes@.subrange(0, off + n));
                    }
                    off = off + n;
                },
                Err(_) => {
                    // A pipe with room left never refuses.
                    proof {
                        assert(before.len() == old(self)@.len() + off);
                        assert(before.len() < 10);
                    }
                },
            }
        }
        proof {
            assert(bytes@.subrange(0, off as int) =~= bytes@);
        }
        true
    }

    /// Enqueue as much of `bytes` as the free space takes, oldest byte first,
    /// and return how many bytes went in.
    pub fn write_some(&mut self, bytes: &[u8]) -> (n: usize)
        ensures
            n == free_prefix_len(old(self)@.len(), bytes@.len()),
            n <= bytes@.len(),
            final(self)@ == old(self)@ + bytes@.take(n as int),
            final(self)@.len() <= PIPE_CAPACITY,
    {
        let used: usize = pipe_len(self);
        let free: usize = PIPE_CAPACITY - used;
        let n: usize = if bytes.len() < free { bytes.len() } else { free };
        let head = slice_subrange(bytes, 0, n);
        let done = self.write(head);
        assert(done);
        n
    }

    /// Copy what is waiting into the front of `buf`, oldest byte first, up
    /// to the length of `buf`, without waiting. Returns the number of bytes
    /// copied: 0 when the pipe is empty or `buf` has no room. The bytes
    /// copied leave the pipe; the rest of `buf` keeps its content.
    pub fn try_read(&mut self, buf: &mut Vec<u8>) -> (n: usize)
        ensures
            n == read_len(old(self)@.len(), old(buf)@.len()),
            final(buf)@.len() == old(buf)@.len(),
            final(buf)@ == old(self)@.take(n as int) + old(buf)@.skip(n as int),
            final(self)@ == old(self)@.skip(n as int),
            final(self)@ == queue_after(old(self)@, PipeOp::Read(old(buf)@.len())),
    {
        let mut got: usize = 0;
        let mut more: bool = true;
        proof {
            assert(buf@ =~= old(self)@.take(0) + old(buf)@.skip(0));
            assert(self@ =~= old(self)@.skip(0));
        }
        while more && got < buf.len()
            invariant
                buf@.len() == old(buf)@.len(),
                got <= buf@.len(),
                got <= old(self)@.len(),
                self@ == old(self)@.skip(got as int),
                buf@ == old(self)@.take(got as int) + old(buf)@.skip(got as int),
                !more ==> self@.len() == 0,
            decreases (if more { 1int } else { 0int }), buf@.len() - got,
        {
            match pipe_try_read(self, buf, got) {
                Ok(k) => {
                    proof {
                        assert(self@ =~= old(self)@.skip(got + k));
                        assert(buf@ =~= old(self)@.take(got + k) + old(buf)@.skip(got + k));
                    }
                    got = got + k;
                },
                Err(_) => {
                    more = false;
                },
            }
        }
        got
    }
}

/// A scratch buffer of `size` zero bytes for a reader to read into.
pub fn scratch(size: usize) -> (buf: Vec<u8>)
    ensures
        buf@ == Seq::new(size as nat, |i: int| 0u8),
{
    let mut buf: Vec<u8> = Vec::new();
    while buf.len() < size
        invariant
            buf@.len() <= size,
            forall|i: int| 0 <= i < buf@.len() ==> buf@[i] == 0u8,
        decreases size - buf@.len(),
    {
        buf.push(0u8);
    }
    proof {
        assert(buf@ =~= Seq::new(size as nat, |i: int| 0u8));
    }
    buf
}

/// How many bytes of a message of `offered` bytes a pipe that holds `used`
/// bytes takes in.
pub open spec fn free_prefix_len(used: nat, offered: nat) -> nat {
    if used + offered <= PIPE_CAPACITY as nat {
        offered
    } else if used <= PIPE_CAPACITY as nat {
        (PIPE_CAPACITY as nat - used) as nat
    } else {
        0
    }
}

/// How many bytes one non-blocking read hands out: all that wait, up to the
/// room in the reader's buffer.
pub open spec fn read_len(waiting: nat, room: nat) -> nat {
    if waiting <= room {
        waiting
    } else {
        room
    }
}

/// One operation on a pipe: an offer of a whole message, or a non-blocking
/// read with room for so many bytes.
pub enum PipeOp {
    Write(Seq<u8>),
    Read(nat),
}

/// The content of a pipe after one operation on a pipe that holds `queue`:
/// a message that fits is appended, one that does not is refused and leaves
/// the content alone; a read removes what it hands out.
pub open spec fn queue_after(queue: Seq<u8>, op: PipeOp) -> Seq<u8> {
    match op {
        PipeOp::Write(bytes) => if queue.len() + bytes.len() <= PIPE_CAPACITY as nat {
            queue + bytes
        } else {
            queue
        },
        PipeOp::Read(room) => queue.skip(read_len(queue.len(), room) as int),
    }
}

/// The bytes that the operation takes in from the writer.
pub open spec fn taken_in(queue: Seq<u8>, op: PipeOp) -> Seq<u8> {
    match op {
        PipeOp::Write(bytes) => if queue.len() + bytes.len() <= PIPE_CAPACITY as nat {
            bytes
        } else {
            Seq::<u8>::empty()
        },
        PipeOp::Read(room) => Seq::<u8>::empty(),
    }
}

/// The bytes that the operation hands to the reader.
pub open spec fn handed_out(queue: Seq<u8>, op: PipeOp) -> Seq<u8> {
    match op {
        PipeOp::Write(bytes) => Seq::<u8>::empty(),
        PipeOp::Read(room) => queue.take(read_len(queue.len(), room) as int),
    }
}

/// The content of a pipe that starts empty after a run of operations.
pub open spec fn queue_of(ops: Seq<PipeOp>) -> Seq<u8>
    decreases ops.len(),
{
    if ops.len() == 0 {
        Seq::<u8>::empty()
    } else {
        queue_after(queue_of(ops.drop_last()), ops.last())
    }
}

/// All bytes that the run took in, in the order of the writes.
pub open spec fn written_by(ops: Seq<PipeOp>) -> Seq<u8>
    decreases ops.len(),
{
    if ops.len() == 0 {
        Seq::<u8>::empty()
    } else {
        written_by(ops.drop_last()) + taken_in(queue_of(ops.drop_last()), ops.last())
    }
}

/// All bytes that the run handed out, in the order of the reads.
pub open spec fn read_by(ops: Seq<PipeOp>) -> Seq<u8>
    decreases ops.len(),
{
    if ops.len() == 0 {
        Seq::<u8>::empty()
    } else {
        read_by(ops.drop_last()) + handed_out(queue_of(ops.drop_last()), ops.last())
    }
}

/// The pipe is a bounded FIFO under any interleaving of writes and reads:
/// what was read so far, followed by what still waits, is exactly what was
/// written so far, so no byte is dropped, repeated or reordered; and the
/// content never exceeds the capacity, a message without room being held
/// back whole.
pub proof fn pipe_is_bounded_fifo(ops: Seq<PipeOp>)
    ensures
        read_by(ops) + queue_of(ops) == written_by(ops),
        queue_of(ops).len() <= PIPE_CAPACITY,
    decreases ops.len(),
{
    if ops.len() == 0 {
        assert(read_by(ops) + queue_of(ops) =~= written_by(ops));
    } else {
        let before = ops.drop_last();
        pipe_is_bounded_fifo(before);
        let queue = queue_of(before);
        match ops.last() {
            PipeOp::Write(bytes) => {
                if queue.len() + bytes.len() <= PIPE_CAPACITY as nat {
                    assert(read_by(ops) + queue_of(ops) =~= (read_by(before) + queue) + bytes);
                } else {
                    assert(read_by(ops) + queue_of(ops) =~= read_by(before) + queue);
                    assert(written_by(ops) =~= written_by(before));
                }
            },
            PipeOp::Read(room) => {
                let n = read_len(queue.len(), room) as int;
                assert(queue.take(n) + queue.skip(n) =~= queue);
                assert(read_by(ops) + queue_of(ops) =~= read_by(before) + (queue.take(n)
                    + queue.skip(n)));
                assert(written_by(ops) =~= written_by(before));
            },
        }
    }
}

/// What a pipe holds after a series of whole-message writes on top of
/// `start`.
pub open spec fn after_writes(start: Seq<u8>, writes: Seq<Seq<u8>>) -> Seq<u8>
    decreases writes.len(),
{
    if writes.len() == 0 {
        start
    } else {
        after_writes(start, writes.drop_last()) + writes.last()
    }
}

/// The bytes that successive non-blocking reads with buffers of the given
/// sizes hand out of a pipe that holds `queue`, in the order they come.
pub open spec fn read_out(queue: Seq<u8>, rooms: Seq<nat>) -> Seq<u8>
    decreases rooms.len(),
{
    if rooms.len() == 0 {
        Seq::<u8>::empty()
    } else {
        let n = read_len(queue.len(), rooms[0]) as int;
        queue.take(n) + read_out(queue.skip(n), rooms.drop_first())
    }
}

/// What stays in the pipe after those reads.
pub open spec fn left_after(queue: Seq<u8>, rooms: Seq<nat>) -> Seq<u8>
    decreases rooms.len(),
{
    if rooms.len() == 0 {
        queue
    } else {
        let n = read_len(queue.len(), rooms[0]) as int;
        left_after(queue.skip(n), rooms.drop_first())
    }
}

/// The sum of the buffer sizes.
pub open spec fn total_room(rooms: Seq<nat>) -> nat
    decreases rooms.len(),
{
    if rooms.len() == 0 {
        0
    } else {
        rooms[0] + total_room(rooms.drop_first())
    }
}

/// Writes concatenate: a series of whole-message writes leaves the start
/// content followed by the messages in the order they were written.
pub proof fn writes_concatenate(start: Seq<u8>, writes: Seq<Seq<u8>>)
    ensures
        after_writes(start, writes) == start + writes.flatten(),
    decreases writes.len(),
{
    if writes.len() == 0 {
        assert(writes.flatten() =~= Seq::<u8>::empty());
        assert(start + writes.flatten() =~= start);
    } else {
        writes_concatenate(start, writes.drop_last());
        writes.drop_last().lemma_flatten_push(writes.last());
        assert(writes.drop_last().push(writes.last()) =~= writes);
        assert(after_writes(start, writes) =~= start + writes.flatten());
    }
}

/// Reads are first in, first out, whatever the chunk sizes: what the reads
/// hand out, followed by what stays behind, is the content the pipe had. So
/// nothing is lost, repeated or reordered, and once the buffers together
/// have room for all of it, the reads hand out exactly the content.
pub proof fn reads_are_fifo(queue: Seq<u8>, rooms: Seq<nat>)
    ensures
        read_out(queue, rooms) + left_after(queue, rooms) == queue,
        total_room(rooms) >= queue.len() ==> read_out(queue, rooms) == queue,
    decreases rooms.len(),
{
    if rooms.len() == 0 {
        assert(read_out(queue, rooms) + left_after(queue, rooms) =~= queue);
        if total_room(rooms) >= queue.len() {
            assert(read_out(queue, rooms) =~= queue);
        }
    } else {
        let n = read_len(queue.len(), rooms[0]) as int;
        reads_are_fifo(queue.skip(n), rooms.drop_first());
        assert(queue.take(n) + queue.skip(n) =~= queue);
        assert(read_out(queue, rooms) + left_after(queue, rooms) =~= queue.take(n) + (read_out(
            queue.skip(n),
            rooms.drop_first(),
        ) + left_after(queue.skip(n), rooms.drop_first())));
        if total_room(rooms) >= queue.len() {
            assert(total_room(rooms.drop_first()) >= queue.skip(n).len());
        }
    }
}

} // verus!
