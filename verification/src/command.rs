//! The command interpreter: classifies a framed line by the keywords it
//! contains and turns the command into what the display task has to do.

use vstd::prelude::*;
use vstd::string::{is_ascii, is_ascii_spec_bytes, StringSliceAdditionalSpecFns};
use crate::led::LedFlag;
use crate::text::FramedLine;

verus! {

/// The bytes of a word of one-byte characters.
pub open spec fn ascii_bytes(word: Seq<char>) -> Seq<u8> {
    Seq::new(word.len(), |i: int| word[i] as u8)
}

/// The keyword that asks for the display to be cleared.
pub open spec fn clear_token() -> Seq<u8> {
    ascii_bytes("clear"@)
}

/// The keyword that asks for the LED to be toggled.
pub open spec fn toggle_token() -> Seq<u8> {
    ascii_bytes("toggle"@)
}

/// Whether `token` stands in `text` at byte offset `at`.
pub open spec fn occurs_at(text: Seq<u8>, token: Seq<u8>, at: int) -> bool {
    &&& 0 <= at
    &&& at + token.len() <= text.len()
    &&& text.subrange(at, at + token.len()) == token
}

/// Whether `token` stands somewhere in `text`, byte for byte.
pub open spec fn contains_token(text: Seq<u8>, token: Seq<u8>) -> bool {
    exists|at: int| occurs_at(text, token, at)
}

/// What a line asks for, over the bytes of its text.
pub enum Intent {
    Clear,
    ToggleLed,
    Literal(Seq<u8>),
}

/// The classification rule: the first keyword that the text contains
/// decides, `clear` before `toggle`; a text with neither is literal.
pub open spec fn classify_text(text: Seq<u8>) -> Intent {
    if contains_token(text, clear_token()) {
        Intent::Clear
    } else if contains_token(text, toggle_token()) {
        Intent::ToggleLed
    } else {
        Intent::Literal(text)
    }
}

/// The classified intent of one framed line.
pub enum Command {
    /// Clear the display.
    Clear,
    /// Ask the LED task for one toggle.
    ToggleLed,
    /// Show the text as it is.
    Literal(FramedLine),
}

impl View for Command {
    type V = Intent;

    open spec fn view(&self) -> Intent {
        match self {
            Command::Clear => Intent::Clear,
            Command::ToggleLed => Intent::ToggleLed,
            Command::Literal(line) => Intent::Literal(line@),
        }
    }
}

/// What the display task does with one command.
pub enum DisplayAction {
    /// Invoke the display's clear operation.
    Clear,
    /// Leave the display alone this cycle.
    Nothing,
    /// Render the text verbatim.
    Write(FramedLine),
}

/// What reaches the display, over the bytes of the text.
pub enum Rendering {
    Clear,
    Nothing,
    Write(Seq<u8>),
}

impl View for DisplayAction {
    type V = Rendering;

    open spec fn view(&self) -> Rendering {
        match self {
            DisplayAction::Clear => Rendering::Clear,
            DisplayAction::Nothing => Rendering::Nothing,
            DisplayAction::Write(line) => Rendering::Write(line@),
        }
    }
}

/// The display's share of an intent.
pub open spec fn rendering_of(intent: Intent) -> Rendering {
    match intent {
        Intent::Clear => Rendering::Clear,
        Intent::ToggleLed => Rendering::Nothing,
        Intent::Literal(text) => Rendering::Write(text),
    }
}

/// Whether `token` stands in `text` at offset `at`, which leaves room for it.
fn matches_at(text: &[u8], token: &[u8], at: usize) -> (yes: bool)
    requires
        at + token@.len() <= text@.len(),
    ensures
        yes == occurs_at(text@, token@, at as int),
{
    let size: usize = text.len();
    let mut k: usize = 0;
    while k < token.len()
        invariant
            size == text@.len(),
            k <= token@.len(),
            at + token@.len() <= text@.len(),
            forall|j: int| 0 <= j < k ==> text@[at + j] == token@[j],
        decreases token@.len() - k,
    {
        if text[at + k] != token[k] {
            proof {
                assert(text@.subrange(at as int, at + token@.len())[k as int] == text@[at + k]);
            }
            return false;
        }
        k = k + 1;
    }
    proof {
        assert(text@.subrange(at as int, at + token@.len()) =~= token@);
    }
    true
}

/// Substring search on bytes: whether `token` stands somewhere in `text`.
pub fn contains_bytes(text: &[u8], token: &[u8]) -> (found: bool)
    ensures
        found == contains_token(text@, token@),
{
    if token.len() > text.len() {
        return false;
    }
    if token.len() == 0 {
        proof {
            assert(text@.subrange(0, 0) =~= token@);
            assert(occurs_at(text@, token@, 0));
        }
        return true;
    }
    let size: usize = text.len();
    let last: usize = size - token.len();
    let mut at: usize = 0;
    while at <= last
        invariant
            last == text@.len() - token@.len(),
            size == text@.len(),
            last < size,
            at <= last + 1,
            forall|i: int| 0 <= i < at ==> !occurs_at(text@, token@, i),
        decreases last + 1 - at,
    {
        if matches_at(text, token, at) {
            return true;
        }
        at = at + 1;
    }
    false
}

/// Classify a framed line: `Clear` where the text contains `clear`,
/// else `ToggleLed` where it contains `toggle`, else the line itself as
/// literal text. Containment is by substring and case-sensitive.
pub fn classify(line: FramedLine) -> (cmd: Command)
    ensures
        cmd@ == classify_text(line@),
{
    let clear = "clear";
    let toggle = "toggle";
    proof {
        reveal_strlit("clear");
        reveal_strlit("toggle");
        assert(is_ascii(clear));
        assert(is_ascii(toggle));
        is_ascii_spec_bytes(clear);
        is_ascii_spec_bytes(toggle);
        assert(clear.spec_bytes() =~= clear_token());
        assert(toggle.spec_bytes() =~= toggle_token());
    }
    if contains_bytes(line.as_bytes(), clear.as_bytes()) {
        Command::Clear
    } else if contains_bytes(line.as_bytes(), toggle.as_bytes()) {
        Command::ToggleLed
    } else {
        Command::Literal(line)
    }
}

/// Carry out a command as far as it concerns shared state, and say what the
/// display has to do: `Clear` clears; `ToggleLed` raises the LED request
/// and shows nothing, its text discarded; a literal is rendered verbatim.
/// Only `ToggleLed` touches the flag.
pub fn dispatch(cmd: Command, flag: &mut LedFlag) -> (action: DisplayAction)
    ensures
        action@ == rendering_of(cmd@),
        final(flag).pending() == (old(flag).pending() || cmd@ == Intent::ToggleLed),
{
    match cmd {
        Command::Clear => DisplayAction::Clear,
        Command::ToggleLed => {
            flag.request();
            DisplayAction::Nothing
        },
        Command::Literal(line) => DisplayAction::Write(line),
    }
}

/// Classification depends on the text alone: lines with the same bytes
/// classify alike, so classifying a text again gives the same command.
pub proof fn classification_is_a_function_of_text(a: FramedLine, b: FramedLine)
    requires
        a@ == b@,
    ensures
        classify_text(a@) == classify_text(b@),
{
}

/// `clear` takes precedence: a text that contains it classifies as `Clear`
/// whatever else it contains, and `ToggleLed` comes only without it.
pub proof fn clear_takes_precedence(text: Seq<u8>)
    ensures
        contains_token(text, clear_token()) ==> classify_text(text) == Intent::Clear,
        classify_text(text) == Intent::ToggleLed ==> contains_token(text, toggle_token())
            && !contains_token(text, clear_token()),
        classify_text(text) is Literal ==> classify_text(text) == Intent::Literal(text)
            && !contains_token(text, clear_token()) && !contains_token(text, toggle_token()),
{
}

} // verus!
