//! The serial bridge: the two directions between the pipes and the link,
//! each as one step that the owning task repeats.

use vstd::prelude::*;
use vstd::slice::slice_subrange;
use vstd::utf8::valid_utf8;
use crate::pipe::{free_prefix_len, read_len, scratch, BytePipe};
use crate::text::is_text;

verus! {

/// Number of bytes that the transmit direction takes out of its pipe at a
/// time.
pub const TX_CHUNK: usize = 8;

/// Size of the buffer that the receive direction reads the link into.
pub const RX_BUFFER: usize = 32;

/// Delay between two polls of the transmit pipe, in microseconds.
pub const TX_POLL_US: u64 = 200;

/// Delay after a receive cycle before the link is read again, in seconds.
pub const RX_PACE_SECS: u64 = 1;

/// What became of the bytes of one receive cycle.
#[derive(Clone, Copy, Debug, PartialEq, Eq, Structural)]
pub enum RxOutcome {
    /// The bytes are not valid text: nothing is forwarded, the cycle ends.
    Rejected,
    /// The bytes are valid text, and those before the offset are in the
    /// pipe now. The cycle is over when the offset is the length received.
    Forwarded(usize),
}

/// Transmit direction: take the next chunk out of the pipe, at most
/// `TX_CHUNK` bytes, oldest first. The bytes returned are to be written to
/// the link in full; an empty chunk means there is nothing to send.
pub fn tx_step(pipe: &mut BytePipe) -> (chunk: Vec<u8>)
    ensures
        chunk@ == old(pipe)@.take(read_len(old(pipe)@.len(), TX_CHUNK as nat) as int),
        final(pipe)@ == old(pipe)@.skip(chunk@.len() as int),
{
    let mut buf = scratch(TX_CHUNK);
    let n: usize = pipe.try_read(&mut buf);
    buf.truncate(n);
    proof {
        assert(buf@ =~= old(pipe)@.take(n as int));
    }
    buf
}

/// Receive direction: forward what the link delivered into the pipe.
/// `received` is the whole buffer of the cycle and `sent` the number of its
/// bytes that earlier steps forwarded. Bytes that are not valid text are
/// rejected as a whole. Otherwise as many of the remaining bytes as the
/// pipe has room for go in, in order, and the new offset is returned; no
/// byte is skipped or dropped.
pub fn rx_step(received: &[u8], sent: usize, pipe: &mut BytePipe) -> (out: RxOutcome)
    requires
        sent <= received@.len(),
    ensures
        !valid_utf8(received@) ==> out == RxOutcome::Rejected && final(pipe)@ == old(pipe)@,
        valid_utf8(received@) ==> {
            let n = free_prefix_len(old(pipe)@.len(), (received@.len() - sent) as nat);
            &&& out == RxOutcome::Forwarded((sent + n) as usize)
            &&& sent + n <= received@.len()
            &&& final(pipe)@ == old(pipe)@ + received@.subrange(sent as int, sent + n)
        },
{
    if !is_text(received) {
        return RxOutcome::Rejected;
    }
    let rest = slice_subrange(received, sent, received.len());
    let n: usize = pipe.write_some(rest);
    proof {
        assert(rest@.take(n as int) =~= received@.subrange(sent as int, sent + n));
    }
    RxOutcome::Forwarded(sent + n)
}

} // verus!
