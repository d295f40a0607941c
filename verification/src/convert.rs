//! The converter: rewrite every line's terminator to a chosen convention
//! while preserving all other byte content exactly.

use crate::ending::LineEnding;
use crate::model::{converted, terminator, CR, LF};
use vstd::prelude::*;

verus! {

/// Append the byte form of `ending` to `out`.
fn push_terminator(out: &mut Vec<u8>, ending: LineEnding)
    ensures
        final(out)@ == old(out)@ + terminator(ending),
{
    match ending {
        LineEnding::CRLF => {
            out.push(CR);
            out.push(LF);
            proof {
                assert(out@ =~= old(out)@ + terminator(LineEnding::CRLF));
            }
        },
        LineEnding::LF => {
            out.push(LF);
            proof {
                assert(out@ =~= old(out)@ + terminator(LineEnding::LF));
            }
        },
    }
}

/// Rewrite every line terminator of `source` to `ending`: each line feed,
/// together with one carriage return immediately before it if present, is
/// replaced by the target terminator. All other bytes pass through
/// unchanged, and a final line with no terminator keeps that property (no
/// terminator is invented). Any byte sequence is legal input; an empty
/// stream yields an empty result.
pub fn convert_to(source: &[u8], ending: LineEnding) -> (out: Vec<u8>)
    ensures
        out@ == converted(source@, ending),
{
    let n = source.len();
    let mut out: Vec<u8> = Vec::new();
    let mut i: usize = 0;
    while i < n
        invariant
            n == source@.len(),
            i <= n,
            out@ == converted(source@.take(i as int), ending),
            0 < i < n ==> !(source@[i - 1] == CR && source@[i as int] == LF),
        decreases n - i,
    {
        if source[i] == LF {
            proof {
                assert(source@.take(i + 1).take(i as int) =~= source@.take(i as int));
            }
            push_terminator(&mut out, ending);
            i = i + 1;
        } else if source[i] == CR && i + 1 < n && source[i + 1] == LF {
            proof {
                assert(source@.take(i + 2).take(i as int) =~= source@.take(i as int));
            }
            push_terminator(&mut out, ending);
            i = i + 2;
        } else {
            proof {
                assert(source@.take(i + 1).take(i as int) =~= source@.take(i as int));
            }
            out.push(source[i]);
            i = i + 1;
        }
    }
    proof {
        assert(source@.take(n as int) =~= source@);
    }
    out
}

} // verus!
