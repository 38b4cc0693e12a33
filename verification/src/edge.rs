//! The edge-triggered input: which level transitions of the button are
//! newsworthy, and what they put into the pipe.

use vstd::prelude::*;
use vstd::string::{is_ascii, is_ascii_spec_bytes, StringSliceAdditionalSpecFns};
use crate::command::ascii_bytes;
use crate::pipe::{BytePipe, PIPE_CAPACITY};

verus! {

/// The level of the digital input after an edge.
#[derive(Clone, Copy, Debug, PartialEq, Eq, Structural)]
pub enum Level {
    High,
    Low,
}

/// What became of one edge.
#[derive(Clone, Copy, Debug, PartialEq, Eq, Structural)]
pub enum EdgeOutcome {
    /// The input went high: nothing is sent.
    Quiet,
    /// The input went low and the notification is in the pipe.
    Sent,
    /// The input went low but the pipe has no room for the notification
    /// yet; nothing was enqueued, and the notification is still owed.
    Blocked,
}

/// The notification that a press puts into the pipe: `pressed!` and a
/// carriage return, line feed.
pub open spec fn press_message() -> Seq<u8> {
    ascii_bytes("pressed!\r\n"@)
}

/// The bytes that an edge into `level` emits: the press message on entry to
/// `Low`, nothing on entry to `High`.
pub open spec fn emitted_by(level: Level) -> Seq<u8> {
    match level {
        Level::Low => press_message(),
        Level::High => Seq::<u8>::empty(),
    }
}

/// The bytes emitted over a run of edges, given the level after each.
pub open spec fn emitted_over(levels: Seq<Level>) -> Seq<u8>
    decreases levels.len(),
{
    if levels.len() == 0 {
        Seq::<u8>::empty()
    } else {
        emitted_over(levels.drop_last()) + emitted_by(levels.last())
    }
}

/// Number of entries into `Low` in a run of edges.
pub open spec fn low_entries(levels: Seq<Level>) -> nat
    decreases levels.len(),
{
    if levels.len() == 0 {
        0
    } else if levels.last() == Level::Low {
        low_entries(levels.drop_last()) + 1
    } else {
        low_entries(levels.drop_last())
    }
}

/// The notification for an edge into `level`, if it has one.
pub fn notification(level: Level) -> (msg: Option<&'static [u8]>)
    ensures
        msg.is_some() <==> level == Level::Low,
        msg.is_some() ==> msg.unwrap()@ == press_message(),
        msg.is_some() ==> msg.unwrap()@.len() == 10,
{
    match level {
        Level::High => None,
        Level::Low => {
            let text: &'static str = "pressed!\r\n";
            proof {
                reveal_strlit("pressed!\r\n");
                assert(is_ascii(text));
                is_ascii_spec_bytes(text);
                assert(text.spec_bytes() =~= press_message());
            }
            Some(text.as_bytes())
        },
    }
}

/// Handle one edge: on entry to `Low` put the whole press message into the
/// pipe, or nothing where it does not fit yet; on entry to `High` do
/// nothing.
pub fn on_edge(level: Level, pipe: &mut BytePipe) -> (out: EdgeOutcome)
    ensures
        level == Level::High ==> out == EdgeOutcome::Quiet && final(pipe)@ == old(pipe)@,
        level == Level::Low && old(pipe)@.len() + press_message().len() <= PIPE_CAPACITY ==> out
            == EdgeOutcome::Sent && final(pipe)@ == old(pipe)@ + emitted_by(level),
        level == Level::Low && old(pipe)@.len() + press_message().len() > PIPE_CAPACITY ==> out
            == EdgeOutcome::Blocked && final(pipe)@ == old(pipe)@,
{
    match notification(level) {
        None => EdgeOutcome::Quiet,
        Some(msg) => {
            if pipe.write(msg) {
                EdgeOutcome::Sent
            } else {
                EdgeOutcome::Blocked
            }
        },
    }
}

/// Only entries into `Low` are newsworthy: a run of edges emits one press
/// message for each entry into `Low` and nothing for an entry into `High`.
pub proof fn one_message_per_low_entry(levels: Seq<Level>)
    ensures
        emitted_over(levels).len() == low_entries(levels) * press_message().len(),
        low_entries(levels) <= levels.len(),
    decreases levels.len(),
{
    let size = press_message().len();
    if levels.len() > 0 {
        let before = low_entries(levels.drop_last());
        one_message_per_low_entry(levels.drop_last());
        assert((before + 1) * size == before * size + size) by (nonlinear_arith);
        if levels.last() == Level::High {
            assert(emitted_over(levels) =~= emitted_over(levels.drop_last()));
        }
    } else {
        assert(0 * size == 0) by (nonlinear_arith);
    }
}

} // verus!
