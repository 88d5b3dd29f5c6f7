//! Error kinds of the Trust Plane, and how each is shown at a protocol boundary.

use vstd::prelude::*;
use vstd::string::*;
use crate::text::join2;

verus! {

/// `std::io::Error`, carried through as it is: nothing is known of what
/// it holds.
#[verifier::external_type_specification]
#[verifier::external_body]
pub struct ExIoError(std::io::Error);

/// Trust Plane errors.
#[derive(Debug)]
pub enum Error {
    /// Bad startup configuration
    Config(String),
    /// Missing bridge, key or chain predecessor
    NotFound(String),
    /// Malformed or unacceptable input
    Invalid(String),
    /// Key import or signature failure
    Crypto(String),
    /// Failure while loading from a file
    Io(std::io::Error),
    /// Protocol server bring-up failure
    Transport(String),
    /// Anything else
    Internal(String),
}

/// The kind of an [`Error`], without its detail.
#[derive(Clone, Copy, Debug, PartialEq, Eq, Structural)]
pub enum ErrorKind {
    Config,
    NotFound,
    Invalid,
    Crypto,
    Io,
    Transport,
    Internal,
}

/// Status vocabulary of the RPC surface.
#[derive(Clone, Copy, Debug, PartialEq, Eq, Structural)]
pub enum StatusCode {
    NotFound,
    InvalidArgument,
    FailedPrecondition,
    Internal,
}

/// An RPC status: a code and the message shown to the caller.
#[derive(Debug)]
pub struct Status {
    pub code: StatusCode,
    pub message: String,
}

/// The prefix that the text of an error of kind `kind` starts with.
pub open spec fn kind_prefix(kind: ErrorKind) -> Seq<char> {
    match kind {
        ErrorKind::Config => "configuration error: "@,
        ErrorKind::NotFound => "not found: "@,
        ErrorKind::Invalid => "invalid: "@,
        ErrorKind::Crypto => "crypto error: "@,
        ErrorKind::Io => "io error: "@,
        ErrorKind::Transport => "transport error: "@,
        ErrorKind::Internal => "internal error: "@,
    }
}

/// The RPC status code that stands for an error of kind `kind`.
pub open spec fn status_code_of(kind: ErrorKind) -> StatusCode {
    match kind {
        ErrorKind::NotFound => StatusCode::NotFound,
        ErrorKind::Invalid => StatusCode::InvalidArgument,
        ErrorKind::Config => StatusCode::FailedPrecondition,
        _ => StatusCode::Internal,
    }
}

/// The HTTP status that stands for an error of kind `kind`.
pub open spec fn http_status_of(kind: ErrorKind) -> u16 {
    match kind {
        ErrorKind::NotFound => 404,
        ErrorKind::Invalid => 400,
        _ => 500,
    }
}

/// What a caller is told of an error: kind and detail where the detail
/// speaks of the caller's own input, the kind alone where it would speak
/// of the inside of the Trust Plane.
pub open spec fn public_text(kind: ErrorKind, detail: Seq<char>) -> Seq<char> {
    match kind {
        ErrorKind::Config => "configuration error: "@ + detail,
        ErrorKind::NotFound => "not found: "@ + detail,
        ErrorKind::Invalid => "invalid: "@ + detail,
        ErrorKind::Crypto => "crypto error"@,
        ErrorKind::Io => "io error"@,
        ErrorKind::Transport => "transport error"@,
        ErrorKind::Internal => "internal error"@,
    }
}

/// The text that `std::io::Error` formats itself as. It comes from the
/// operating system, so nothing is stated of it.
#[verifier::external_body]
fn io_error_text(e: &std::io::Error) -> (text: String) {
    format!("{}", e)
}

/// The HTTP status that the HTTP surface answers a fault of kind `kind`
/// with.
pub fn status_of(kind: ErrorKind) -> (code: u16)
    ensures
        code == http_status_of(kind),
{
    match kind {
        ErrorKind::NotFound => 404,
        ErrorKind::Invalid => 400,
        _ => 500,
    }
}

impl Error {
    /// The kind of this error.
    pub open spec fn spec_kind(&self) -> ErrorKind {
        match self {
            Error::Config(_) => ErrorKind::Config,
            Error::NotFound(_) => ErrorKind::NotFound,
            Error::Invalid(_) => ErrorKind::Invalid,
            Error::Crypto(_) => ErrorKind::Crypto,
            Error::Io(_) => ErrorKind::Io,
            Error::Transport(_) => ErrorKind::Transport,
            Error::Internal(_) => ErrorKind::Internal,
        }
    }

    /// The detail that this error carries; an `Io` error carries none as text.
    pub open spec fn detail(&self) -> Seq<char> {
        match self {
            Error::Config(m) => m@,
            Error::NotFound(m) => m@,
            Error::Invalid(m) => m@,
            Error::Crypto(m) => m@,
            Error::Io(_) => Seq::empty(),
            Error::Transport(m) => m@,
            Error::Internal(m) => m@,
        }
    }

    /// This error has kind `kind` and carries exactly `detail`.
    pub open spec fn carries(&self, kind: ErrorKind, detail: Seq<char>) -> bool {
        self.spec_kind() == kind && self.detail() == detail
    }

    /// The kind of this error.
    #[verifier::when_used_as_spec(spec_kind)]
    pub fn kind(&self) -> (kind: ErrorKind)
        ensures
            kind == self.spec_kind(),
    {
        match self {
            Error::Config(_) => ErrorKind::Config,
            Error::NotFound(_) => ErrorKind::NotFound,
            Error::Invalid(_) => ErrorKind::Invalid,
            Error::Crypto(_) => ErrorKind::Crypto,
            Error::Io(_) => ErrorKind::Io,
            Error::Transport(_) => ErrorKind::Transport,
            Error::Internal(_) => ErrorKind::Internal,
        }
    }

    /// The text of this error: the prefix of its kind, then its detail.
    pub fn message(&self) -> (text: String)
        ensures
            kind_prefix(self.spec_kind()).is_prefix_of(text@),
            !(self is Io) ==> text@ == kind_prefix(self.spec_kind()) + self.detail(),
    {
        match self {
            Error::Config(m) => join2("configuration error: ", m.as_str()),
            Error::NotFound(m) => join2("not found: ", m.as_str()),
            Error::Invalid(m) => join2("invalid: ", m.as_str()),
            Error::Crypto(m) => join2("crypto error: ", m.as_str()),
            Error::Io(e) => {
                let detail = io_error_text(e);
                join2("io error: ", detail.as_str())
            },
            Error::Transport(m) => join2("transport error: ", m.as_str()),
            Error::Internal(m) => join2("internal error: ", m.as_str()),
        }
    }

    /// What a caller is told of this error.
    pub fn public_message(&self) -> (text: String)
        ensures
            text@ == public_text(self.spec_kind(), self.detail()),
    {
        match self {
            Error::Config(m) => join2("configuration error: ", m.as_str()),
            Error::NotFound(m) => join2("not found: ", m.as_str()),
            Error::Invalid(m) => join2("invalid: ", m.as_str()),
            Error::Crypto(_) => String::from_str("crypto error"),
            Error::Io(_) => String::from_str("io error"),
            Error::Transport(_) => String::from_str("transport error"),
            Error::Internal(_) => String::from_str("internal error"),
        }
    }

    /// The HTTP status that the HTTP surface answers this error with.
    pub fn http_status(&self) -> (code: u16)
        ensures
            code == http_status_of(self.spec_kind()),
    {
        status_of(self.kind())
    }

    /// The status that the RPC surface answers this error with.
    ///
    /// `NotFound`, `Invalid` and `Config` show their detail. A `Crypto` error
    /// shows its kind only; the others show their whole text.
    pub fn into_status(self) -> (status: Status)
        ensures
            status.code == status_code_of(self.spec_kind()),
            match self {
                Error::NotFound(m) => status.message@ == m@,
                Error::Invalid(m) => status.message@ == m@,
                Error::Config(m) => status.message@ == m@,
                Error::Crypto(_) => status.message@ == "crypto error"@,
                Error::Io(_) => "io error: "@.is_prefix_of(status.message@),
                Error::Transport(m) => status.message@ == "transport error: "@ + m@,
                Error::Internal(m) => status.message@ == "internal error: "@ + m@,
            },
    {
        match self {
            Error::NotFound(m) => Status { code: StatusCode::NotFound, message: m },
            Error::Invalid(m) => Status { code: StatusCode::InvalidArgument, message: m },
            Error::Config(m) => Status { code: StatusCode::FailedPrecondition, message: m },
            Error::Crypto(_) => Status {
                code: StatusCode::Internal,
                message: String::from_str("crypto error"),
            },
            other => {
                let message = other.message();
                Status { code: StatusCode::Internal, message }
            },
        }
    }
}

impl From<std::io::Error> for Error {
    fn from(e: std::io::Error) -> (out: Error) {
        Error::Io(e)
    }
}

impl vstd::std_specs::convert::FromSpecImpl<std::io::Error> for Error {
    open spec fn obeys_from_spec() -> bool {
        true
    }

    open spec fn from_spec(e: std::io::Error) -> Error {
        Error::Io(e)
    }
}

} // verus!
