//! Error taxonomy of the decoder and the merge driver.

use vstd::prelude::*;
use vstd::string::StringExecFns;

verus! {

/// What went wrong while reading a save line.
#[derive(Debug, Clone, Copy, PartialEq, Eq, Structural)]
pub enum ParseErrorKind {
    /// A line that should hold a decimal integer does not.
    IntParse,
    /// A line that should hold a decimal fraction does not.
    FloatParse,
    /// The line sequence ended before every field was read.
    EofUnexpected,
    /// Lines remain after the last field, and they are not one empty line.
    EofExpected,
}

/// A decode failure, with the 1-based number of the offending line when the
/// failure concerns one line.
#[derive(Debug, Clone, Copy, PartialEq, Eq, Structural)]
pub struct ParseError {
    pub kind: ParseErrorKind,
    pub line: Option<usize>,
}

impl ParseError {
    /// Builds an error from its parts.
    pub fn new(kind: ParseErrorKind, line: Option<usize>) -> (r: ParseError)
        ensures
            r.kind == kind,
            r.line == line,
    {
        ParseError { kind, line }
    }

    /// Human-readable description, with the line number when one is known.
    pub fn message(&self) -> (r: String)
        ensures
            r@ == self.kind.spec_message() + (match self.line {
                Some(l) => " on line "@ + crate::numtext::dec_digits(l as nat),
                None => Seq::<char>::empty(),
            }),
    {
        let mut s = String::new();
        s.append(self.kind.message());
        match self.line {
            Some(l) => {
                proof {
                    reveal_strlit(" on line ");
                }
                s.append(" on line ");
                crate::numtext::append_dec_u64(&mut s, l as u64);
            },
            None => {},
        }
        proof {
            assert(s@ =~= self.kind.spec_message() + (match self.line {
                Some(l) => " on line "@ + crate::numtext::dec_digits(l as nat),
                None => Seq::<char>::empty(),
            }));
        }
        s
    }
}

impl ParseErrorKind {
    /// The description text of this failure kind.
    pub open spec fn spec_message(self) -> Seq<char> {
        match self {
            ParseErrorKind::IntParse => "integer parse error"@,
            ParseErrorKind::FloatParse => "float parse error"@,
            ParseErrorKind::EofUnexpected => "file ended unexpectedly"@,
            ParseErrorKind::EofExpected => "expected end of file"@,
        }
    }

    /// Human-readable description of this failure kind.
    pub fn message(&self) -> (r: &'static str)
        ensures
            r@ == self.spec_message(),
    {
        match self {
            ParseErrorKind::IntParse => "integer parse error",
            ParseErrorKind::FloatParse => "float parse error",
            ParseErrorKind::EofUnexpected => "file ended unexpectedly",
            ParseErrorKind::EofExpected => "expected end of file",
        }
    }
}

/// Why two save states cannot be merged.
#[derive(Debug, Clone, Copy, PartialEq, Eq, Structural)]
pub enum MergeError {
    /// The other side or the ancestor reports a later chapter than ours.
    ChapterMismatch,
}

impl MergeError {
    /// Human-readable description.
    pub fn message(&self) -> (r: &'static str)
        ensures
            r@ == "Chapter mismatch"@,
    {
        "Chapter mismatch"
    }
}

} // verus!
