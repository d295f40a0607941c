//! The mathematical model: spec-level descriptions of how a byte stream
//! decomposes into terminated lines and of what conversion produces.
//!
//! A stream is viewed as a `Seq<u8>`. Every line-feed byte terminates exactly
//! one line; a line whose terminator is immediately preceded by a carriage
//! return is a CRLF line, any other terminated line is an LF line. Trailing
//! bytes after the last line feed form an unterminated fragment.

use crate::ending::LineEnding;
use vstd::prelude::*;

verus! {

/// Carriage-return byte, `'\r'`.
pub const CR: u8 = 13;

/// Line-feed byte, `'\n'`.
pub const LF: u8 = 10;

/// Number of line-feed bytes in `s`, i.e. the number of terminated lines.
pub open spec fn line_feeds(s: Seq<u8>) -> nat
    decreases s.len(),
{
    if s.len() == 0 {
        0
    } else {
        line_feeds(s.drop_last()) + if s.last() == LF {
            1nat
        } else {
            0nat
        }
    }
}

/// Number of terminated lines of `s` whose line feed is immediately
/// preceded by a carriage return.
pub open spec fn crlf_lines(s: Seq<u8>) -> nat
    decreases s.len(),
{
    if s.len() == 0 {
        0
    } else {
        crlf_lines(s.drop_last()) + if s.last() == LF && s.len() >= 2 && s[s.len() - 2] == CR {
            1nat
        } else {
            0nat
        }
    }
}

/// Number of terminated lines of `s` whose line feed is not immediately
/// preceded by a carriage return.
pub open spec fn lf_lines(s: Seq<u8>) -> nat
    decreases s.len(),
{
    if s.len() == 0 {
        0
    } else {
        lf_lines(s.drop_last()) + if s.last() == LF && !(s.len() >= 2 && s[s.len() - 2] == CR) {
            1nat
        } else {
            0nat
        }
    }
}

/// One when `s` ends in an unterminated fragment (a nonempty stream whose
/// last byte is not a line feed), zero otherwise. The measurer tallies such
/// a fragment as one more LF-style line.
pub open spec fn fragment_lines(s: Seq<u8>) -> nat {
    if s.len() > 0 && s.last() != LF {
        1nat
    } else {
        0nat
    }
}

/// The byte form of a terminator convention.
pub open spec fn terminator(ending: LineEnding) -> Seq<u8> {
    match ending {
        LineEnding::CRLF => seq![CR, LF],
        LineEnding::LF => seq![LF],
    }
}

/// The normalized form of `s` under the convention `ending`: every line
/// terminator (a line feed together with one carriage return immediately
/// before it, if any) is replaced by `terminator(ending)`; all other bytes,
/// including an unterminated trailing fragment, are preserved exactly.
pub open spec fn converted(s: Seq<u8>, ending: LineEnding) -> Seq<u8>
    decreases s.len(),
{
    if s.len() == 0 {
        Seq::empty()
    } else if s.last() == LF {
        if s.len() >= 2 && s[s.len() - 2] == CR {
            converted(s.take(s.len() - 2), ending) + terminator(ending)
        } else {
            converted(s.take(s.len() - 1), ending) + terminator(ending)
        }
    } else {
        converted(s.take(s.len() - 1), ending).push(s.last())
    }
}

/// Whether `s` contains a line feed preceded by two carriage returns in a
/// row. On such a line the converter strips only the carriage return next
/// to the line feed, so the line's content keeps a trailing carriage return.
pub open spec fn has_cr_cr_lf(s: Seq<u8>) -> bool {
    exists|i: int|
        0 <= i && i + 2 < s.len() && #[trigger] s[i] == CR && s[i + 1] == CR && s[i + 2] == LF
}

/// The classification a pair of line counters yields: a pure convention when
/// all counted lines share it, and no classification for a mixed or empty
/// stream.
pub open spec fn classification(lf: nat, crlf: nat) -> Option<LineEnding> {
    if lf == 0 && crlf > 0 {
        Some(LineEnding::CRLF)
    } else if lf > 0 && crlf == 0 {
        Some(LineEnding::LF)
    } else {
        None
    }
}

} // verus!
