//! One cycle of the display task: drain the pipe, frame a line, classify
//! it, and decide what the display has to do.

use vstd::prelude::*;
use vstd::slice::slice_subrange;
use vstd::utf8::valid_utf8;
use crate::command::{classify, classify_text, dispatch, rendering_of, DisplayAction, Intent};
use crate::led::LedFlag;
use crate::pipe::{read_len, scratch, BytePipe};
use crate::text::{frame_line, strip_nulls, terminated, FrameError, LINE_CAPACITY};

verus! {

/// How one cycle of the display task ended.
pub enum CycleOutcome {
    /// The pipe was empty: nothing was read, the task waits.
    Idle,
    /// Bytes were read but gave no line; the cycle is abandoned.
    Failed(FrameError),
    /// A line was dispatched; the display has this to do.
    Act(DisplayAction),
}

/// The bytes that one cycle takes out of a pipe that holds `queue`: all that
/// wait, up to one line's worth.
pub open spec fn cycle_input(queue: Seq<u8>) -> Seq<u8> {
    queue.take(read_len(queue.len(), LINE_CAPACITY as nat) as int)
}

/// The framed text of a cycle whose input is well-formed.
pub open spec fn cycle_text(input: Seq<u8>) -> Seq<u8> {
    terminated(strip_nulls(input))
}

/// Whether a cycle on this input dispatches a line.
pub open spec fn cycle_dispatches(input: Seq<u8>) -> bool {
    &&& input.len() > 0
    &&& valid_utf8(input)
    &&& strip_nulls(input).len() <= LINE_CAPACITY
}

/// Run one cycle. The bytes that wait in the pipe, up to a line's worth,
/// leave it. None: `Idle`. Not valid text, or too long: `Failed`, and the
/// bytes are dropped. Otherwise they are framed, classified and dispatched:
/// the outcome carries the display's action, and the LED request is raised
/// exactly for a `ToggleLed`.
pub fn display_cycle(pipe: &mut BytePipe, flag: &mut LedFlag) -> (out: CycleOutcome)
    ensures
        final(pipe)@ == old(pipe)@.skip(cycle_input(old(pipe)@).len() as int),
        match out {
            CycleOutcome::Idle => old(pipe)@.len() == 0,
            CycleOutcome::Failed(FrameError::InvalidText) => {
                &&& old(pipe)@.len() > 0
                &&& !valid_utf8(cycle_input(old(pipe)@))
            },
            CycleOutcome::Failed(FrameError::TooLong) => {
                &&& old(pipe)@.len() > 0
                &&& valid_utf8(cycle_input(old(pipe)@))
                &&& strip_nulls(cycle_input(old(pipe)@)).len() > LINE_CAPACITY
            },
            CycleOutcome::Act(action) => {
                &&& cycle_dispatches(cycle_input(old(pipe)@))
                &&& action@ == rendering_of(
                    classify_text(cycle_text(cycle_input(old(pipe)@))),
                )
            },
        },
        final(flag).pending() == (old(flag).pending() || (cycle_dispatches(
            cycle_input(old(pipe)@),
        ) && classify_text(cycle_text(cycle_input(old(pipe)@))) == Intent::ToggleLed)),
{
    let mut buf = scratch(LINE_CAPACITY);
    let n: usize = pipe.try_read(&mut buf);
    if n == 0 {
        return CycleOutcome::Idle;
    }
    let input = slice_subrange(buf.as_slice(), 0, n);
    proof {
        assert(input@ =~= cycle_input(old(pipe)@));
    }
    match frame_line(input) {
        Err(e) => CycleOutcome::Failed(e),
        Ok(line) => {
            let cmd = classify(line);
            CycleOutcome::Act(dispatch(cmd, flag))
        },
    }
}

} // verus!
