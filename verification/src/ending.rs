use vstd::prelude::*;

verus! {

/// The two line-terminator conventions that are recognized or produced.
/// No other convention (such as bare carriage returns) exists here.
#[derive(Debug, Clone, Copy, PartialEq, Eq, Structural)]
pub enum LineEnding {
    CRLF,
    LF,
}

impl LineEnding {
    /// The canonical lowercase name of the convention.
    pub open spec fn name_spec(self) -> Seq<char> {
        match self {
            LineEnding::CRLF => "crlf"@,
            LineEnding::LF => "lf"@,
        }
    }

    /// Canonical lowercase display form: `"crlf"` or `"lf"`.
    pub fn name(&self) -> (s: &'static str)
        ensures
            s@ == self.name_spec(),
    {
        match self {
            LineEnding::CRLF => "crlf",
            LineEnding::LF => "lf",
        }
    }
}

} // verus!
