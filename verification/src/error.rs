use vstd::prelude::*;

verus! {

/// The error taxonomy of the engine.
///
/// `Decode` marks a malformed input line, surfaced by the decode
/// collaborator.  `MalformedIdentifier` marks a composite identifier whose
/// numeric prefix cannot be parsed.  `Encoding` marks a field that could not
/// be flattened to its textual column form.  `Io` marks a failure reported
/// by the columnar file writer or the metadata store.  `SchemaInvariant`
/// marks a column that received a value of the wrong physical type; the
/// engine proves that its own pushes never produce it.
#[derive(Debug)]
pub enum Error {
    Decode(String),
    MalformedIdentifier(String),
    Encoding(String),
    Io(String),
    SchemaInvariant(String),
}

impl Error {
    /// The message carried by the error.
    pub closed spec fn spec_message(&self) -> Seq<char> {
        match self {
            Error::Decode(m) => m@,
            Error::MalformedIdentifier(m) => m@,
            Error::Encoding(m) => m@,
            Error::Io(m) => m@,
            Error::SchemaInvariant(m) => m@,
        }
    }

    /// The human-readable message carried by the error.
    pub fn message(&self) -> (m: &String)
        ensures
            m@ == self.spec_message(),
    {
        match self {
            Error::Decode(m) => m,
            Error::MalformedIdentifier(m) => m,
            Error::Encoding(m) => m,
            Error::Io(m) => m,
            Error::SchemaInvariant(m) => m,
        }
    }
}

} // verus!
