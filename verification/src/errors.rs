use vstd::prelude::*;

verus! {

/// The typed errors an extraction can surface: failures of the filesystem
/// or network, a parser rejecting content, a translated foreign-runtime
/// exception, an encoding fault, or an invalid configuration.
#[derive(Clone, Debug, PartialEq, Eq)]
pub enum Error {
    IoError(String),
    ParseError(String),
    BridgeError(String),
    EncodingError(String),
    ConfigError(String),
}

impl Error {
    /// The human-readable cause carried by the error.
    pub fn message(&self) -> (m: &String)
        ensures
            self is IoError ==> m == self->IoError_0,
            self is ParseError ==> m == self->ParseError_0,
            self is BridgeError ==> m == self->BridgeError_0,
            self is EncodingError ==> m == self->EncodingError_0,
            self is ConfigError ==> m == self->ConfigError_0,
    {
        match self {
            Error::IoError(m) => m,
            Error::ParseError(m) => m,
            Error::BridgeError(m) => m,
            Error::EncodingError(m) => m,
            Error::ConfigError(m) => m,
        }
    }
}

/// The result type of every extraction operation.
pub type ExtractResult<T> = Result<T, Error>;

} // verus!
