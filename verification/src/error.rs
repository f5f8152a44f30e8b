use vstd::prelude::*;

verus! {

/// The failure conditions of the library and of the process around it.
///
/// Every condition is fatal for the step that raised it: the library never
/// recovers locally, so that an expiring key is never silently dropped.
#[derive(Clone, Copy, Debug, PartialEq, Eq, Structural)]
pub enum Error {
    /// A caller-supplied fingerprint is not 40 uppercase hexadecimal characters.
    InvalidIdentifier,
    /// The record stream violates the expected pairing and ordering grammar.
    StructuralParse,
    /// The external key-management tool exited with a non-zero status.
    Subprocess,
    /// The reference timestamp could not be obtained.
    Clock,
    /// The external tool's output is not valid UTF-8 text.
    Encoding,
}

impl Error {
    /// A human-readable description of the failure.
    pub fn message(&self) -> (r: &'static str)
        ensures
            r@ == self.spec_message(),
    {
        match self {
            Error::InvalidIdentifier => "Key ID must be exactly 40 uppercase hex characters.",
            Error::StructuralParse => "Failed to parse GPG key structure",
            Error::Subprocess => "GPG command failed",
            Error::Clock => "Failed to read the system clock",
            Error::Encoding => "GPG output was not valid UTF-8",
        }
    }

    /// The description that `message` returns for each variant.
    pub open spec fn spec_message(&self) -> Seq<char> {
        match self {
            Error::InvalidIdentifier => "Key ID must be exactly 40 uppercase hex characters."@,
            Error::StructuralParse => "Failed to parse GPG key structure"@,
            Error::Subprocess => "GPG command failed"@,
            Error::Clock => "Failed to read the system clock"@,
            Error::Encoding => "GPG output was not valid UTF-8"@,
        }
    }
}

} // verus!
