//! The errors of an acquisition, by the component that raises them.

use vstd::prelude::*;

verus! {

/// A field of the configuration record.
#[derive(Clone, Copy, Debug, PartialEq, Eq, Structural)]
pub enum ConfigField {
    Kind,
    Port,
    Url,
    Authorization,
    Key,
}

/// The configuration cannot be resolved to a provider.
#[derive(Clone, Copy, Debug, PartialEq, Eq, Structural)]
pub enum ConfigError {
    /// `kind` is neither `serial` nor `http-get`.
    UnknownKind,
    /// A field that the selected kind needs is absent.
    MissingField(ConfigField),
    /// A field that the selected kind needs is present and empty.
    EmptyField(ConfigField),
    /// A field holds what cannot be used as it is meant to be: an
    /// authorization that cannot be sent as a header value.
    InvalidField(ConfigField),
}

/// The serial device failed at one of the steps of an exchange.
#[derive(Clone, Copy, Debug, PartialEq, Eq, Structural)]
pub enum PortError {
    Open,
    Flush,
    Write,
    /// The read timed out or came back short.
    Read,
}

/// The serial response holds fewer bytes than a frame.
#[derive(Clone, Copy, Debug, PartialEq, Eq, Structural)]
pub enum FramingError {
    ShortResponse,
}

/// The HTTP request failed in transport or was answered with a status
/// outside 200..=299.
#[derive(Clone, Copy, Debug, PartialEq, Eq, Structural)]
pub enum NetworkError {
    Request,
}

/// The response body does not yield a reading.
#[derive(Clone, Copy, Debug, PartialEq, Eq, Structural)]
pub enum ParseError {
    /// The body is not a JSON document.
    Json,
    /// The document has no member under the configured key.
    MissingKey,
    /// The member under the key is not a string.
    WrongType,
    /// The string is not a decimal number that fits in 16 bits.
    Numeric,
}

/// A hook did not run to a successful end.
#[derive(Clone, Copy, Debug, PartialEq, Eq, Structural)]
pub enum HookError {
    /// The program could not be started.
    Spawn,
    /// The program ended with a status other than success.
    NonZeroExit,
}

/// Why an acquisition gave no reading.
#[derive(Clone, Copy, Debug, PartialEq, Eq, Structural)]
pub enum AcquisitionError {
    Config(ConfigError),
    Port(PortError),
    Framing(FramingError),
    Network(NetworkError),
    Parse(ParseError),
}

/// What a caller needs to tell apart: a configuration to correct, a source
/// that cannot be reached, or a source that answered with something unusable.
#[derive(Clone, Copy, Debug, PartialEq, Eq, Structural)]
pub enum ErrorCategory {
    BadConfiguration,
    SourceUnavailable,
    MalformedResponse,
}

impl AcquisitionError {
    pub open spec fn spec_category(self) -> ErrorCategory {
        match self {
            AcquisitionError::Config(_) => ErrorCategory::BadConfiguration,
            AcquisitionError::Port(_) => ErrorCategory::SourceUnavailable,
            AcquisitionError::Network(_) => ErrorCategory::SourceUnavailable,
            AcquisitionError::Framing(_) => ErrorCategory::MalformedResponse,
            AcquisitionError::Parse(_) => ErrorCategory::MalformedResponse,
        }
    }

    /// The category under which a caller reports this error.
    #[verifier::when_used_as_spec(spec_category)]
    pub fn category(self) -> (c: ErrorCategory)
        ensures
            c == self.spec_category(),
    {
        match self {
            AcquisitionError::Config(_) => ErrorCategory::BadConfiguration,
            AcquisitionError::Port(_) => ErrorCategory::SourceUnavailable,
            AcquisitionError::Network(_) => ErrorCategory::SourceUnavailable,
            AcquisitionError::Framing(_) => ErrorCategory::MalformedResponse,
            AcquisitionError::Parse(_) => ErrorCategory::MalformedResponse,
        }
    }
}

} // verus!
