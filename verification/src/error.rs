//! The ways an invocation can end other than by exhausting its source.

use vstd::prelude::*;

verus! {

/// Why a run stopped early.
#[derive(Debug, Clone, Copy, PartialEq, Eq, Structural)]
pub enum FindError {
    /// The root argument is neither an absolute URL nor a resolvable local path.
    InvalidRoot,
    /// The first input line is absent, unreadable as a header, or carries an
    /// unrecognised version tag.
    MissingOrMalformedHeader,
    /// A path or basename pattern is not a valid regular expression.
    InvalidPattern,
    /// The backend listing failed.
    SourceError,
    /// An upstream record line could not be decoded.
    DecodeError,
    /// The output destination was closed by its consumer.
    BrokenOutput,
}

impl FindError {
    /// A closed output is a normal way for a piped run to end; every other
    /// kind is a fault.
    pub open spec fn is_benign(self) -> bool {
        self is BrokenOutput
    }

    /// Startup errors abort before any record is processed.
    pub open spec fn is_startup(self) -> bool {
        self is InvalidRoot || self is MissingOrMalformedHeader || self is InvalidPattern
    }

    /// The process exit status for a run that met `outcome`.
    pub open spec fn spec_exit_code(outcome: Option<FindError>) -> u8 {
        match outcome {
            None => 0,
            Some(e) => if e.is_benign() { 0 } else { 1 },
        }
    }

    /// The text shown to the user for each kind.
    pub open spec fn spec_message(self) -> Seq<char> {
        match self {
            FindError::InvalidRoot => "root is neither an absolute URL nor an existing local path"@,
            FindError::MissingOrMalformedHeader => "first input line is not a recognised listing header"@,
            FindError::InvalidPattern => "pattern is not a valid regular expression"@,
            FindError::SourceError => "listing the backend failed"@,
            FindError::DecodeError => "an input line is not a valid object record"@,
            FindError::BrokenOutput => "output was closed by its consumer"@,
        }
    }

    /// Whether this kind ends the run without it counting as a failure.
    pub fn benign(&self) -> (b: bool)
        ensures
            b == self.is_benign(),
    {
        match self {
            FindError::BrokenOutput => true,
            _ => false,
        }
    }

    /// Whether this kind can only arise before the first record is processed.
    pub fn startup(&self) -> (b: bool)
        ensures
            b == self.is_startup(),
    {
        match self {
            FindError::InvalidRoot => true,
            FindError::MissingOrMalformedHeader => true,
            FindError::InvalidPattern => true,
            _ => false,
        }
    }

    /// A short human-readable description of the error.
    pub fn message(&self) -> (text: &'static str)
        ensures
            text@ == self.spec_message(),
    {
        match self {
            FindError::InvalidRoot => "root is neither an absolute URL nor an existing local path",
            FindError::MissingOrMalformedHeader => "first input line is not a recognised listing header",
            FindError::InvalidPattern => "pattern is not a valid regular expression",
            FindError::SourceError => "listing the backend failed",
            FindError::DecodeError => "an input line is not a valid object record",
            FindError::BrokenOutput => "output was closed by its consumer",
        }
    }
}

/// Exit status of a run: zero when the source was exhausted or the output
/// was closed by its consumer, one for every fault.
pub fn exit_code(outcome: Option<FindError>) -> (code: u8)
    ensures
        code == FindError::spec_exit_code(outcome),
        code == 0 <==> (outcome matches Some(e) ==> e.is_benign()),
{
    match outcome {
        None => 0,
        Some(e) => if e.benign() { 0 } else { 1 },
    }
}

} // verus!
