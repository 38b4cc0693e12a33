//! The line framer: turns the bytes of one pipe read cycle into a bounded,
//! newline-terminated text value. The text is held in a `heapless::String`
//! of `LINE_CAPACITY` bytes and described by its UTF-8 bytes.

use vstd::prelude::*;
use vstd::utf8::{
    is_char_boundary_iff_not_is_continuation_byte, is_char_boundary_start_end_of_seq, valid_utf8,
};
use vstd::string::StringSliceAdditionalSpecFns;

verus! {

/// Number of bytes that one framed line can hold.
pub const LINE_CAPACITY: usize = 32;

/// The line terminator, `'\n'`.
pub const NEWLINE: u8 = 10;

/// `heapless::String`, a string of fixed capacity; opaque, and described by
/// `text_bytes`.
#[verifier::external_type_specification]
#[verifier::external_body]
pub struct ExBoundedString<const N: usize>(heapless::String<N>);

/// The UTF-8 bytes that a bounded string holds.
pub uninterp spec fn text_bytes(s: heapless::String<32>) -> Seq<u8>;

/// `bytes` without the zero bytes at its end.
pub open spec fn strip_nulls(bytes: Seq<u8>) -> Seq<u8>
    decreases bytes.len(),
{
    if bytes.len() > 0 && bytes.last() == 0 {
        strip_nulls(bytes.drop_last())
    } else {
        bytes
    }
}

/// Whether the last byte of `bytes` is the line terminator.
pub open spec fn ends_with_newline(bytes: Seq<u8>) -> bool {
    bytes.len() > 0 && bytes.last() == NEWLINE
}

/// `bytes` with the terminator it is owed: unchanged where it already ends in
/// one, and unchanged where a full line leaves no room for one.
pub open spec fn terminated(bytes: Seq<u8>) -> Seq<u8> {
    if ends_with_newline(bytes) || bytes.len() >= LINE_CAPACITY as nat {
        bytes
    } else {
        bytes.push(NEWLINE)
    }
}

/// `core::str::from_utf8`: the bytes are accepted exactly when they are
/// well-formed UTF-8, and the text returned then has those bytes.
#[verifier::external_body]
fn decode_text(bytes: &[u8]) -> (r: Option<&str>)
    ensures
        r.is_some() <==> valid_utf8(bytes@),
        r.is_some() ==> r.unwrap().spec_bytes() == bytes@,
{
    core::str::from_utf8(bytes).ok()
}

/// `heapless::String::try_from(&str)`: a new bounded string with the bytes
/// of `s`, refused exactly when they are more than the capacity.
#[verifier::external_body]
fn text_from(s: &str) -> (r: Result<heapless::String<32>, ()>)
    ensures
        r.is_ok() <==> s.spec_bytes().len() <= 32,
        r.is_ok() ==> text_bytes(r.unwrap()) == s.spec_bytes(),
{
    heapless::String::try_from(s)
}

/// `heapless::String::push` for a one-byte character: the byte is appended
/// when the string is not full; a full string refuses and stays as it was.
#[verifier::external_body]
fn text_push(t: &mut heapless::String<32>, c: char) -> (r: Result<(), ()>)
    requires
        (c as u32) < 128,
    ensures
        r.is_ok() <==> text_bytes(*old(t)).len() < 32,
        r.is_ok() ==> text_bytes(*final(t)) == text_bytes(*old(t)).push(c as u8),
        r.is_err() ==> text_bytes(*final(t)) == text_bytes(*old(t)),
{
    t.push(c)
}

/// `heapless::String::as_str`: the held text as a string slice.
#[verifier::external_body]
fn text_as_str(t: &heapless::String<32>) -> (r: &str)
    ensures
        r.spec_bytes() == text_bytes(*t),
{
    t.as_str()
}

/// Whether the bytes are well-formed text, that is, valid UTF-8.
pub fn is_text(bytes: &[u8]) -> (yes: bool)
    ensures
        yes == valid_utf8(bytes@),
{
    decode_text(bytes).is_some()
}

/// Why a read cycle gave no line.
#[derive(Clone, Copy, Debug, PartialEq, Eq, Structural)]
pub enum FrameError {
    /// The bytes are not well-formed UTF-8.
    InvalidText,
    /// The text, without its zero padding, is longer than a line can hold.
    TooLong,
}

/// One decoded text unit, built from a single pipe read cycle.
pub struct FramedLine {
    text: heapless::String<32>,
}

impl View for FramedLine {
    type V = Seq<u8>;

    closed spec fn view(&self) -> Seq<u8> {
        text_bytes(self.text)
    }
}

impl FramedLine {
    /// The text of the line.
    pub fn as_str(&self) -> (s: &str)
        ensures
            s.spec_bytes() == self@,
    {
        text_as_str(&self.text)
    }

    /// The UTF-8 bytes of the line.
    pub fn as_bytes(&self) -> (b: &[u8])
        ensures
            b@ == self@,
    {
        text_as_str(&self.text).as_bytes()
    }

    /// Length of the line in bytes.
    pub fn len(&self) -> (n: usize)
        ensures
            n == self@.len(),
    {
        self.as_bytes().len()
    }

    /// Whether the line ends in the terminator. Only a full line that had no
    /// room for one can come out of the framer without it.
    pub fn is_terminated(&self) -> (yes: bool)
        ensures
            yes == ends_with_newline(self@),
    {
        let bytes = self.as_bytes();
        let n: usize = bytes.len();
        n > 0 && bytes[n - 1] == NEWLINE
    }
}

/// Length of `bytes` without the zero bytes at its end.
pub fn stripped_len(bytes: &[u8]) -> (keep: usize)
    ensures
        keep == strip_nulls(bytes@).len(),
        keep <= bytes@.len(),
        strip_nulls(bytes@) == bytes@.take(keep as int),
{
    let mut keep: usize = bytes.len();
    proof {
        assert(bytes@.take(keep as int) =~= bytes@);
    }
    while keep > 0 && bytes[keep - 1] == 0
        invariant
            keep <= bytes@.len(),
            strip_nulls(bytes@) == strip_nulls(bytes@.take(keep as int)),
        decreases keep,
    {
        proof {
            assert(bytes@.take(keep as int).drop_last() =~= bytes@.take(keep - 1));
        }
        keep = keep - 1;
    }
    keep
}

/// Frame the bytes of one read cycle: decode them as text, drop the zero
/// padding at the end, and append a line terminator where none is there and
/// the line has room for it.
pub fn frame_line(raw: &[u8]) -> (r: Result<FramedLine, FrameError>)
    ensures
        match r {
            Ok(line) => {
                &&& valid_utf8(raw@)
                &&& strip_nulls(raw@).len() <= LINE_CAPACITY
                &&& line@ == terminated(strip_nulls(raw@))
            },
            Err(FrameError::InvalidText) => !valid_utf8(raw@),
            Err(FrameError::TooLong) => valid_utf8(raw@) && strip_nulls(raw@).len()
                > LINE_CAPACITY,
        },
{
    let decoded = match decode_text(raw) {
        Some(s) => s,
        None => {
            return Err(FrameError::InvalidText);
        },
    };
    let keep: usize = stripped_len(raw);
    proof {
        strip_nulls_is_trailing_zero_cut(raw@);
        if keep < raw@.len() {
            assert(raw@[keep as int] == 0);
            is_char_boundary_iff_not_is_continuation_byte(raw@, keep as int);
        } else {
            is_char_boundary_start_end_of_seq(raw@);
        }
        assert(raw@.subrange(0, keep as int) =~= raw@.take(keep as int));
    }
    let (trimmed, _) = decoded.split_at(keep);
    let mut text = match text_from(trimmed) {
        Ok(t) => t,
        Err(_) => {
            return Err(FrameError::TooLong);
        },
    };
    let bytes = trimmed.as_bytes();
    let n: usize = bytes.len();
    let ended = n > 0 && bytes[n - 1] == NEWLINE;
    if !ended {
        let _ = text_push(&mut text, '\n');
    }
    Ok(FramedLine { text })
}

/// Stripping removes every trailing zero byte and nothing else: the result
/// is a prefix of the input, does not end in a zero byte, and all that was
/// cut off is zero.
pub proof fn strip_nulls_is_trailing_zero_cut(bytes: Seq<u8>)
    ensures
        strip_nulls(bytes).len() <= bytes.len(),
        strip_nulls(bytes) == bytes.take(strip_nulls(bytes).len() as int),
        strip_nulls(bytes).len() > 0 ==> strip_nulls(bytes).last() != 0,
        forall|i: int| strip_nulls(bytes).len() <= i < bytes.len() ==> #[trigger] bytes[i] == 0,
    decreases bytes.len(),
{
    if bytes.len() > 0 && bytes.last() == 0 {
        let shorter = bytes.drop_last();
        strip_nulls_is_trailing_zero_cut(shorter);
        let k = strip_nulls(shorter).len() as int;
        assert(shorter.take(k) =~= bytes.take(k));
        assert forall|i: int| k <= i < bytes.len() implies #[trigger] bytes[i] == 0 by {
            if i < shorter.len() {
                assert(shorter[i] == 0);
            }
        }
    } else {
        assert(bytes.take(bytes.len() as int) =~= bytes);
    }
}

/// The trailing-newline guarantee: a line with room left always comes out
/// terminated; one that already ends in the terminator is left unchanged,
/// and any other gains exactly one terminator byte. Terminating twice
/// changes nothing more.
pub proof fn terminated_ends_in_one_newline(bytes: Seq<u8>)
    requires
        bytes.len() < LINE_CAPACITY,
    ensures
        ends_with_newline(terminated(bytes)),
        ends_with_newline(bytes) ==> terminated(bytes) == bytes,
        !ends_with_newline(bytes) ==> terminated(bytes) == bytes.push(NEWLINE),
        terminated(bytes).drop_last() == if ends_with_newline(bytes) {
            bytes.drop_last()
        } else {
            bytes
        },
        terminated(terminated(bytes)) == terminated(bytes),
{
    if !ends_with_newline(bytes) {
        assert(bytes.push(NEWLINE).drop_last() =~= bytes);
    }
}

} // verus!
