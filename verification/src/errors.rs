use vstd::prelude::*;

verus! {

/// The failures an invocation can end with. `ConfigRead`, `ConfigParse` and
/// `ConfigWrite` arise while loading or persisting the credential file and are
/// fatal for the whole invocation; `SecretDecode` means a stored secret is not
/// valid BASE32 text. A requested name being absent is not an error: it is an
/// ordinary outcome, reported through `GetOutcome::NotFound`.
#[derive(Clone, Copy, Debug, PartialEq, Eq, Structural)]
pub enum Error {
    ConfigRead,
    ConfigParse,
    ConfigWrite,
    SecretDecode,
}

impl Error {
    /// A short human-readable description, for the diagnostic stream.
    pub fn message(&self) -> &'static str {
        match self {
            Error::ConfigRead => "could not read the config file",
            Error::ConfigParse => "could not parse the config file",
            Error::ConfigWrite => "could not write the config file",
            Error::SecretDecode => "the stored secret is not valid BASE32",
        }
    }
}

} // verus!
