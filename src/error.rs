//! The errors of the prompt pipeline.
use vstd::prelude::*;

verus! {

/// The hard failures of the prompt pipeline.
#[derive(Debug)]
pub enum Error {
    /// A `.git` file lacks the `gitdir: ` prefix.
    MalformedIndirection,
    /// The current-reference content is shorter than an abbreviated hash and
    /// is not a symbolic reference.
    MalformedReference,
    /// The checkout directory is not nested under its bare parent.
    PathNotNested,
    /// Any other failure, carrying its diagnostic text (I/O errors among them).
    Other(String),
}

impl Error {
    /// An error that carries the given diagnostic text.
    pub fn from_str(s: &str) -> (e: Error)
        ensures
            e matches Error::Other(m) && m@ == s@,
    {
        Error::Other(s.to_owned())
    }

    /// The diagnostic text of the error.
    pub fn message(&self) -> (r: String)
        ensures
            match self {
                Error::MalformedIndirection => r@ == "Invalid .git file format"@,
                Error::MalformedReference => r@ == "Unknown HEAD format"@,
                Error::PathNotNested => r@ == "Failed to calculate relative path"@,
                Error::Other(m) => r@ == m@,
            },
    {
        match self {
            Error::MalformedIndirection => "Invalid .git file format".to_owned(),
            Error::MalformedReference => "Unknown HEAD format".to_owned(),
            Error::PathNotNested => "Failed to calculate relative path".to_owned(),
            Error::Other(m) => m.clone(),
        }
    }
}

} // verus!
