//! The banner exchange: the probe line that is sent, and the text that the
//! bytes read back amount to.

use vstd::prelude::*;
use vstd::utf8::{decode_utf8, valid_utf8};
use crate::randomizer::{probe_bytes, state_after, Rand, PROBE_LEN};

verus! {

/// Carriage return, the first byte of the line terminator.
pub const CR: u8 = 13;

/// Line feed, the second byte of the line terminator.
pub const LF: u8 = 10;

/// How the read of a banner came to its end.
#[derive(Clone, Copy, Debug, PartialEq, Eq, Structural)]
pub enum ReadStatus {
    /// The peer closed the connection; everything it sent was read.
    PeerClosed,
    /// The time budget ran out; what had arrived until then was read.
    TimedOut,
    /// The read failed.
    Failed,
}

/// How the write of the probe line came to its end.
#[derive(Clone, Copy, Debug, PartialEq, Eq, Structural)]
pub enum WriteStatus {
    /// The whole line was written.
    Written,
    /// The time budget ran out first.
    TimedOut,
    /// The write failed.
    Failed,
}

/// The line sent by a generator in state `seed`: its probe, then CR and LF.
pub open spec fn probe_line_of(seed: u8) -> Seq<u8> {
    probe_bytes(seed).push(CR).push(LF)
}

/// Builds the next probe line from `rng`: a fresh probe followed by CR LF.
pub fn probe_line(rng: &mut Rand) -> (line: Vec<u8>)
    ensures
        line@ == probe_line_of(old(rng)@),
        line@.len() == PROBE_LEN + 2,
        final(rng)@ == state_after(old(rng)@, PROBE_LEN as nat),
{
    let mut line: Vec<u8> = rng.probe();
    line.push(CR);
    line.push(LF);
    line
}

/// The text that `String::from_utf8_lossy` makes of `bytes`: their decoding,
/// with each ill-formed stretch replaced by U+FFFD.
pub uninterp spec fn utf8_lossy(bytes: Seq<u8>) -> Seq<char>;

/// Decodes `bytes` with `String::from_utf8_lossy`. The conversion never fails
/// and depends on the bytes alone; for well-formed UTF-8 it is the plain
/// decoding, as the standard library documents.
#[verifier::external_body]
fn decode_lossy(bytes: &Vec<u8>) -> (text: String)
    ensures
        text@ == utf8_lossy(bytes@),
        valid_utf8(bytes@) ==> text@ == decode_utf8(bytes@),
{
    String::from_utf8_lossy(bytes.as_slice()).into_owned()
}

/// The banner that a read amounts to. A failed read yields no banner, whatever
/// had arrived before; so does a read that ended with nothing received.
/// Otherwise the banner is the lossy decoding of what was received.
pub open spec fn banner_of(status: ReadStatus, bytes: Seq<u8>) -> Seq<char> {
    if status == ReadStatus::Failed || bytes.len() == 0 {
        Seq::empty()
    } else {
        utf8_lossy(bytes)
    }
}

/// Turns the result of reading a banner into text. An absent banner and a
/// failed exchange both come out as the empty string.
pub fn banner_text(status: ReadStatus, bytes: &Vec<u8>) -> (text: String)
    ensures
        text@ == banner_of(status, bytes@),
        status != ReadStatus::Failed && valid_utf8(bytes@) ==> text@ == decode_utf8(bytes@),
{
    match status {
        ReadStatus::Failed => String::new(),
        _ => {
            if bytes.len() == 0 {
                String::new()
            } else {
                decode_lossy(bytes)
            }
        },
    }
}

} // verus!
