use crate::ending::LineEnding;
use crate::laws::{lemma_line_feeds_bound, lemma_lines_partition};
use crate::model::{classification, crlf_lines, fragment_lines, lf_lines, line_feeds, CR, LF};
use vstd::prelude::*;

verus! {

/// Accumulated line counts of one measured stream: how many completed lines
/// ended in CRLF and how many in a bare LF (a trailing unterminated fragment
/// is tallied with the latter).
#[derive(Debug, Clone)]
pub struct CrlfStat {
    lf: usize,
    crlf: usize,
}

impl Default for CrlfStat {
    fn default() -> (stat: CrlfStat)
        ensures
            stat.lf_count() == 0,
            stat.crlf_count() == 0,
    {
        CrlfStat { lf: 0, crlf: 0 }
    }
}

impl CrlfStat {
    /// The LF-style line tally.
    pub closed spec fn lf_count(self) -> nat {
        self.lf as nat
    }

    /// The CRLF line tally.
    pub closed spec fn crlf_count(self) -> nat {
        self.crlf as nat
    }

    /// Whether these counters are the measurement of the stream `s`.
    pub open spec fn measures(self, s: Seq<u8>) -> bool {
        &&& self.lf_count() == lf_lines(s) + fragment_lines(s)
        &&& self.crlf_count() == crlf_lines(s)
    }

    /// The single convention all counted lines follow, if there is one:
    /// `CRLF` when only CRLF lines were seen, `LF` when only LF-style lines
    /// were seen, and `None` for a mixed or empty stream.
    pub fn is_pure(&self) -> (ending: Option<LineEnding>)
        ensures
            ending == classification(self.lf_count(), self.crlf_count()),
    {
        if self.lf == 0 && self.crlf != 0 {
            return Some(LineEnding::CRLF);
        }
        if self.lf != 0 && self.crlf == 0 {
            return Some(LineEnding::LF);
        }
        None
    }

    /// Number of counted LF-style lines.
    pub fn lf(&self) -> (n: usize)
        ensures
            n == self.lf_count(),
    {
        self.lf
    }

    /// Number of counted CRLF lines.
    pub fn crlf(&self) -> (n: usize)
        ensures
            n == self.crlf_count(),
    {
        self.crlf
    }

    /// Scan a whole stream and classify every completed line by its
    /// terminator: a line feed immediately preceded by a carriage return
    /// closes a CRLF line, any other line feed closes an LF line, and a
    /// trailing fragment with no line feed at all is tallied as one more
    /// LF-style line.
    pub fn measure_file(source: &[u8]) -> (stat: CrlfStat)
        ensures
            stat.measures(source@),
    {
        let n = source.len();
        let mut lf: usize = 0;
        let mut crlf: usize = 0;
        let mut i: usize = 0;
        while i < n
            invariant
                n == source@.len(),
                i <= n,
                lf == lf_lines(source@.take(i as int)),
                crlf == crlf_lines(source@.take(i as int)),
            decreases n - i,
        {
            proof {
                lemma_lines_partition(source@.take(i as int));
                lemma_line_feeds_bound(source@.take(i as int));
                assert(source@.take(i + 1).drop_last() =~= source@.take(i as int));
            }
            if source[i] == LF {
                if i > 0 && source[i - 1] == CR {
                    crlf = crlf + 1;
                } else {
                    lf = lf + 1;
                }
            }
            i = i + 1;
        }
        proof {
            assert(source@.take(n as int) =~= source@);
        }
        if n > 0 && source[n - 1] != LF {
            proof {
                lemma_lines_partition(source@);
                lemma_line_feeds_bound(source@.drop_last());
            }
            lf = lf + 1;
        }
        CrlfStat { lf, crlf }
    }
}

} // verus!
