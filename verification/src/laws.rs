//! The laws that relate the measurer, the converter and the model: every
//! line feed terminates exactly one counted line, conversion yields a pure
//! stream, conversion is idempotent, and converting by way of CRLF changes
//! nothing about a later conversion.

use crate::ending::LineEnding;
use crate::model::{
    classification, converted, crlf_lines, fragment_lines, has_cr_cr_lf, lf_lines, line_feeds,
    terminator, CR, LF,
};
use crate::stats::CrlfStat;
use vstd::prelude::*;

verus! {

/// Every line feed terminates exactly one counted line, so the two tallies
/// partition the terminated lines of the stream.
pub proof fn lemma_lines_partition(s: Seq<u8>)
    ensures
        lf_lines(s) + crlf_lines(s) == line_feeds(s),
    decreases s.len(),
{
    if s.len() > 0 {
        lemma_lines_partition(s.drop_last());
    }
}

/// A stream has no more line feeds than bytes; none at all when its last
/// byte is not a line feed and the rest is line-feed-free.
pub proof fn lemma_line_feeds_bound(s: Seq<u8>)
    ensures
        line_feeds(s) <= s.len(),
    decreases s.len(),
{
    if s.len() > 0 {
        lemma_line_feeds_bound(s.drop_last());
    }
}

/// A prefix of a stream without a double carriage return before a line feed
/// is again such a stream.
proof fn lemma_no_cr_cr_lf_prefix(s: Seq<u8>, k: int)
    requires
        !has_cr_cr_lf(s),
        0 <= k <= s.len(),
    ensures
        !has_cr_cr_lf(s.take(k)),
{
    if has_cr_cr_lf(s.take(k)) {
        let t = s.take(k);
        let i = choose|i: int|
            0 <= i && i + 2 < t.len() && #[trigger] t[i] == CR && t[i + 1] == CR && t[i + 2] == LF;
        assert(s[i] == CR && s[i + 1] == CR && s[i + 2] == LF);
        assert(has_cr_cr_lf(s));
    }
}

/// Conversion never empties a nonempty stream, and its last byte is the
/// last byte of the input, except that a terminated stream stays terminated.
proof fn lemma_converted_last(s: Seq<u8>, ending: LineEnding)
    ensures
        converted(s, ending).len() == 0 <==> s.len() == 0,
        s.len() > 0 ==> converted(s, ending).last() == (if s.last() == LF {
            LF
        } else {
            s.last()
        }),
{
    if s.len() > 0 && s.last() == LF {
        match ending {
            LineEnding::CRLF => {
                assert(terminator(ending).len() == 2 && terminator(ending).last() == LF);
            },
            LineEnding::LF => {
                assert(terminator(ending).len() == 1 && terminator(ending).last() == LF);
            },
        }
    }
}

/// Converting to CRLF turns every terminated line into a CRLF line and
/// leaves no LF-style line behind.
proof fn lemma_converted_crlf_counts(s: Seq<u8>)
    ensures
        crlf_lines(converted(s, LineEnding::CRLF)) == line_feeds(s),
        lf_lines(converted(s, LineEnding::CRLF)) == 0,
    decreases s.len(),
{
    let e = LineEnding::CRLF;
    let c = converted(s, e);
    if s.len() == 0 {
    } else if s.last() == LF {
        let m: int = if s.len() >= 2 && s[s.len() - 2] == CR {
            s.len() - 2
        } else {
            s.len() - 1
        };
        let prefix = s.take(m);
        lemma_converted_crlf_counts(prefix);
        let x = converted(prefix, e);
        assert(c == x + seq![CR, LF]);
        assert((x + seq![CR, LF]).drop_last() =~= x + seq![CR]);
        assert((x + seq![CR]).drop_last() =~= x);
        assert(crlf_lines(c) == crlf_lines(x + seq![CR]) + 1);
        assert(crlf_lines(x + seq![CR]) == crlf_lines(x));
        assert(lf_lines(c) == lf_lines(x + seq![CR]));
        assert(lf_lines(x + seq![CR]) == lf_lines(x));
        if m == s.len() - 2 {
            assert(s.drop_last() =~= s.take(s.len() - 1));
            assert(s.take(s.len() - 1).drop_last() =~= prefix);
            assert(line_feeds(s.take(s.len() - 1)) == line_feeds(prefix));
            assert(line_feeds(s) == line_feeds(prefix) + 1);
        } else {
            assert(s.drop_last() =~= prefix);
            assert(line_feeds(s) == line_feeds(prefix) + 1);
        }
    } else {
        let prefix = s.take(s.len() - 1);
        lemma_converted_crlf_counts(prefix);
        let x = converted(prefix, e);
        assert(c == x.push(s.last()));
        assert(x.push(s.last()).drop_last() =~= x);
        assert(s.drop_last() =~= prefix);
        assert(crlf_lines(c) == crlf_lines(x));
        assert(lf_lines(c) == lf_lines(x));
        assert(line_feeds(s) == line_feeds(prefix));
    }
}

/// Converting to LF turns every terminated line into an LF-style line and
/// leaves no CRLF line behind, as long as no line's content ends in a
/// carriage return of its own (no double carriage return before a line
/// feed): such a leftover carriage return would sit right before the new
/// bare line feed and read back as a CRLF line.
proof fn lemma_converted_lf_counts(s: Seq<u8>)
    requires
        !has_cr_cr_lf(s),
    ensures
        crlf_lines(converted(s, LineEnding::LF)) == 0,
        lf_lines(converted(s, LineEnding::LF)) == line_feeds(s),
    decreases s.len(),
{
    let e = LineEnding::LF;
    let c = converted(s, e);
    if s.len() == 0 {
    } else if s.last() == LF {
        let m: int = if s.len() >= 2 && s[s.len() - 2] == CR {
            s.len() - 2
        } else {
            s.len() - 1
        };
        let prefix = s.take(m);
        lemma_no_cr_cr_lf_prefix(s, m);
        lemma_converted_lf_counts(prefix);
        lemma_converted_last(prefix, e);
        let x = converted(prefix, e);
        assert(c == x + seq![LF]);
        assert((x + seq![LF]).drop_last() =~= x);
        if x.len() > 0 {
            assert(prefix.last() == s[m - 1]);
            if s[m - 1] == CR {
                assert(m == s.len() - 2);
                assert(s[m - 1] == CR && s[m] == CR && s[m + 1] == LF);
                assert(has_cr_cr_lf(s));
            }
            assert(x.last() != CR);
            assert(c[c.len() - 2] == x.last());
        }
        assert(crlf_lines(c) == crlf_lines(x));
        assert(lf_lines(c) == lf_lines(x) + 1);
        if m == s.len() - 2 {
            assert(s.drop_last() =~= s.take(s.len() - 1));
            assert(s.take(s.len() - 1).drop_last() =~= prefix);
            assert(line_feeds(s.take(s.len() - 1)) == line_feeds(prefix));
            assert(line_feeds(s) == line_feeds(prefix) + 1);
        } else {
            assert(s.drop_last() =~= prefix);
            assert(line_feeds(s) == line_feeds(prefix) + 1);
        }
    } else {
        let prefix = s.take(s.len() - 1);
        lemma_no_cr_cr_lf_prefix(s, s.len() - 1);
        lemma_converted_lf_counts(prefix);
        let x = converted(prefix, e);
        assert(c == x.push(s.last()));
        assert(x.push(s.last()).drop_last() =~= x);
        assert(s.drop_last() =~= prefix);
        assert(crlf_lines(c) == crlf_lines(x));
        assert(lf_lines(c) == lf_lines(x));
        assert(line_feeds(s) == line_feeds(prefix));
    }
}

/// A measurement counts every line terminated by a line feed, with a
/// trailing unterminated fragment tallied as one more line.
pub proof fn lemma_measure_counts_all_lines(stat: CrlfStat, s: Seq<u8>)
    requires
        stat.measures(s),
    ensures
        stat.lf_count() + stat.crlf_count() == line_feeds(s) + fragment_lines(s),
{
    lemma_lines_partition(s);
}

/// Measuring a converted stream classifies it as pure in the target
/// convention, provided the input had at least one terminated line. Two
/// provisos name the inputs on which purity genuinely fails: toward CRLF
/// the input must end with a terminator, since an unterminated fragment is
/// tallied as one more LF-style line and would read back as mixed; toward
/// LF no line feed may be preceded by two carriage returns, since the
/// line's leftover carriage return would read back as a CRLF line.
pub proof fn lemma_convert_then_measure(s: Seq<u8>, ending: LineEnding, stat: CrlfStat)
    requires
        stat.measures(converted(s, ending)),
        line_feeds(s) > 0,
        ending == LineEnding::CRLF ==> s.last() == LF,
        ending == LineEnding::LF ==> !has_cr_cr_lf(s),
    ensures
        classification(stat.lf_count(), stat.crlf_count()) == Some(ending),
{
    if s.len() == 0 {
        assert(line_feeds(s) == 0);
    }
    lemma_converted_last(s, ending);
    match ending {
        LineEnding::CRLF => {
            lemma_converted_crlf_counts(s);
        },
        LineEnding::LF => {
            lemma_converted_lf_counts(s);
        },
    }
}

/// Normalizing to CRLF first changes nothing about a later conversion:
/// the CRLF pass reassembles every line's content exactly, so any further
/// pass sees the same lines it would have seen in the original stream.
pub proof fn lemma_convert_via_crlf(s: Seq<u8>, ending: LineEnding)
    ensures
        converted(converted(s, LineEnding::CRLF), ending) == converted(s, ending),
    decreases s.len(),
{
    let c = converted(s, LineEnding::CRLF);
    if s.len() == 0 {
    } else if s.last() == LF {
        let m: int = if s.len() >= 2 && s[s.len() - 2] == CR {
            s.len() - 2
        } else {
            s.len() - 1
        };
        let prefix = s.take(m);
        lemma_convert_via_crlf(prefix, ending);
        let x = converted(prefix, LineEnding::CRLF);
        assert(c == x + seq![CR, LF]);
        assert(c.take(c.len() - 2) =~= x);
        assert(c.last() == LF && c.len() >= 2 && c[c.len() - 2] == CR);
        assert(converted(c, ending) == converted(x, ending) + terminator(ending));
        assert(converted(s, ending) == converted(prefix, ending) + terminator(ending));
    } else {
        let prefix = s.take(s.len() - 1);
        lemma_convert_via_crlf(prefix, ending);
        let x = converted(prefix, LineEnding::CRLF);
        assert(c == x.push(s.last()));
        assert(c.take(c.len() - 1) =~= x);
        assert(converted(c, ending) == converted(x, ending).push(s.last()));
        assert(converted(s, ending) == converted(prefix, ending).push(s.last()));
    }
}

/// Cross-target round trip: converting to CRLF and then reducing to bare
/// LF yields exactly what the direct LF conversion yields.
pub proof fn lemma_convert_round_trip(s: Seq<u8>)
    ensures
        converted(converted(s, LineEnding::CRLF), LineEnding::LF) == converted(s, LineEnding::LF),
{
    lemma_convert_via_crlf(s, LineEnding::LF);
}

/// Converting twice to LF is the same as converting once, for a stream
/// without a double carriage return before a line feed.
proof fn lemma_convert_idempotent_lf(s: Seq<u8>)
    requires
        !has_cr_cr_lf(s),
    ensures
        converted(converted(s, LineEnding::LF), LineEnding::LF) == converted(s, LineEnding::LF),
    decreases s.len(),
{
    let e = LineEnding::LF;
    let c = converted(s, e);
    if s.len() == 0 {
    } else if s.last() == LF {
        let m: int = if s.len() >= 2 && s[s.len() - 2] == CR {
            s.len() - 2
        } else {
            s.len() - 1
        };
        let prefix = s.take(m);
        lemma_no_cr_cr_lf_prefix(s, m);
        lemma_convert_idempotent_lf(prefix);
        lemma_converted_last(prefix, e);
        let x = converted(prefix, e);
        assert(c == x + seq![LF]);
        assert(c.last() == LF);
        if x.len() == 0 {
            assert(c.take(c.len() - 1) =~= Seq::<u8>::empty());
            assert(converted(c, e) == converted(Seq::<u8>::empty(), e) + terminator(e));
            assert(converted(Seq::<u8>::empty(), e) + terminator(e) =~= c);
        } else {
            assert(prefix.last() == s[m - 1]);
            if s[m - 1] == CR {
                assert(m == s.len() - 2);
                assert(has_cr_cr_lf(s));
            }
            assert(x.last() != CR);
            assert(c[c.len() - 2] == x.last());
            assert(c.take(c.len() - 1) =~= x);
            assert(converted(c, e) == converted(x, e) + terminator(e));
        }
    } else {
        let prefix = s.take(s.len() - 1);
        lemma_no_cr_cr_lf_prefix(s, s.len() - 1);
        lemma_convert_idempotent_lf(prefix);
        let x = converted(prefix, e);
        assert(c == x.push(s.last()));
        assert(c.take(c.len() - 1) =~= x);
        assert(converted(c, e) == converted(x, e).push(s.last()));
    }
}

/// Converting twice to the same target yields the same bytes as converting
/// once. Toward LF this needs that no line feed is preceded by two carriage
/// returns: on such a line the first pass strips only the carriage return
/// next to the line feed, and a second pass would strip the one that the
/// first pass's output then exposes.
pub proof fn lemma_convert_idempotent(s: Seq<u8>, ending: LineEnding)
    requires
        ending == LineEnding::LF ==> !has_cr_cr_lf(s),
    ensures
        converted(converted(s, ending), ending) == converted(s, ending),
{
    match ending {
        LineEnding::CRLF => lemma_convert_via_crlf(s, LineEnding::CRLF),
        LineEnding::LF => lemma_convert_idempotent_lf(s),
    }
}

} // verus!
