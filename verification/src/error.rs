//! The ways in which an analysis run can fail.

use vstd::prelude::*;

verus! {

/// A fatal error of a run. None of them is retried or downgraded.
#[derive(Debug, Clone, PartialEq, Eq)]
pub enum CursecovError {
    /// A glob pattern is malformed; holds the reason.
    Pattern(String),
    /// A path or directory could not be read; holds the reason.
    Filesystem(String),
    /// The extension of the file at this path maps to no known source dialect.
    Dialect(String),
    /// The source of the file at this path could not be parsed.
    Parse(String),
    /// The minimum coverage lies outside of 0 to 100.
    Config,
    /// The curse-word pattern was not accepted by the regex engine.
    Vocabulary,
}

/// The kind of a [`CursecovError`], without the text it carries.
#[derive(Debug, Clone, Copy, PartialEq, Eq, Structural)]
pub enum ErrorKind {
    Pattern,
    Filesystem,
    Dialect,
    Parse,
    Config,
    Vocabulary,
}

impl CursecovError {
    /// The kind of this error.
    pub open spec fn spec_kind(&self) -> ErrorKind {
        match self {
            CursecovError::Pattern(_) => ErrorKind::Pattern,
            CursecovError::Filesystem(_) => ErrorKind::Filesystem,
            CursecovError::Dialect(_) => ErrorKind::Dialect,
            CursecovError::Parse(_) => ErrorKind::Parse,
            CursecovError::Config => ErrorKind::Config,
            CursecovError::Vocabulary => ErrorKind::Vocabulary,
        }
    }

    /// The text that this error carries: a reason or a path; empty where it carries none.
    pub open spec fn spec_detail(&self) -> Seq<char> {
        match self {
            CursecovError::Pattern(s) => s@,
            CursecovError::Filesystem(s) => s@,
            CursecovError::Dialect(s) => s@,
            CursecovError::Parse(s) => s@,
            CursecovError::Config => Seq::empty(),
            CursecovError::Vocabulary => Seq::empty(),
        }
    }

    /// The kind of this error.
    #[verifier::when_used_as_spec(spec_kind)]
    pub fn kind(&self) -> (k: ErrorKind)
        ensures
            k == self.spec_kind(),
    {
        match self {
            CursecovError::Pattern(_) => ErrorKind::Pattern,
            CursecovError::Filesystem(_) => ErrorKind::Filesystem,
            CursecovError::Dialect(_) => ErrorKind::Dialect,
            CursecovError::Parse(_) => ErrorKind::Parse,
            CursecovError::Config => ErrorKind::Config,
            CursecovError::Vocabulary => ErrorKind::Vocabulary,
        }
    }
}

} // verus!
