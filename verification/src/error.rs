use vstd::prelude::*;
use vstd::string::*;

verus! {

/// The kinds of failure that the service reports.
#[derive(Clone, Copy, Debug, PartialEq, Eq, Structural)]
pub enum ErrorKind {
    /// Malformed id, empty argument list.
    InvalidArgument,
    /// Unknown job id.
    NotFound,
    /// The caller does not own the job.
    PermissionDenied,
    /// Missing or unparseable peer certificate, no common name.
    Unauthenticated,
    /// A cgroup operation or the spawn failed.
    ResourceError,
    /// A broken invariant.
    Internal,
    /// The command channel is closed.
    Unavailable,
}

/// The status codes of the transport under which failures are reported.
#[derive(Clone, Copy, Debug, PartialEq, Eq, Structural)]
pub enum StatusCode {
    InvalidArgument,
    NotFound,
    PermissionDenied,
    Unauthenticated,
    Unknown,
    Internal,
    Unavailable,
}

impl ErrorKind {
    /// The status code under which a failure of this kind is reported: its
    /// namesake, and for a resource error, which has none, `Unknown`.
    pub open spec fn code(self) -> StatusCode {
        match self {
            ErrorKind::InvalidArgument => StatusCode::InvalidArgument,
            ErrorKind::NotFound => StatusCode::NotFound,
            ErrorKind::PermissionDenied => StatusCode::PermissionDenied,
            ErrorKind::Unauthenticated => StatusCode::Unauthenticated,
            ErrorKind::ResourceError => StatusCode::Unknown,
            ErrorKind::Internal => StatusCode::Internal,
            ErrorKind::Unavailable => StatusCode::Unavailable,
        }
    }

    /// The status code under which a failure of this kind is reported.
    pub fn status_code(self) -> (r: StatusCode)
        ensures
            r == self.code(),
    {
        match self {
            ErrorKind::InvalidArgument => StatusCode::InvalidArgument,
            ErrorKind::NotFound => StatusCode::NotFound,
            ErrorKind::PermissionDenied => StatusCode::PermissionDenied,
            ErrorKind::Unauthenticated => StatusCode::Unauthenticated,
            ErrorKind::ResourceError => StatusCode::Unknown,
            ErrorKind::Internal => StatusCode::Internal,
            ErrorKind::Unavailable => StatusCode::Unavailable,
        }
    }
}

/// A failure: its kind, and a message for the caller.
#[derive(Clone, Debug, PartialEq, Eq)]
pub struct RuntimeError {
    pub kind: ErrorKind,
    pub message: String,
}

impl View for RuntimeError {
    type V = (ErrorKind, Seq<char>);

    open spec fn view(&self) -> (ErrorKind, Seq<char>) {
        (self.kind, self.message@)
    }
}

/// The message that goes with a failure that carries no data.
pub open spec fn standard_message(kind: ErrorKind) -> Seq<char> {
    match kind {
        ErrorKind::InvalidArgument => "invalid argument"@,
        ErrorKind::NotFound => "job not found"@,
        ErrorKind::PermissionDenied => "permission denied"@,
        ErrorKind::Unauthenticated => "unauthenticated"@,
        ErrorKind::ResourceError => "resource error"@,
        ErrorKind::Internal => "internal error"@,
        ErrorKind::Unavailable => "runtime command channel error"@,
    }
}

/// The failure of the given kind with its standard message.
pub open spec fn failure(kind: ErrorKind) -> (ErrorKind, Seq<char>) {
    (kind, standard_message(kind))
}

impl RuntimeError {
    /// The failure of the given kind with its standard message.
    pub fn of_kind(kind: ErrorKind) -> (r: RuntimeError)
        ensures
            r@ == failure(kind),
    {
        let message: String = match kind {
            ErrorKind::InvalidArgument => String::from_str("invalid argument"),
            ErrorKind::NotFound => String::from_str("job not found"),
            ErrorKind::PermissionDenied => String::from_str("permission denied"),
            ErrorKind::Unauthenticated => String::from_str("unauthenticated"),
            ErrorKind::ResourceError => String::from_str("resource error"),
            ErrorKind::Internal => String::from_str("internal error"),
            ErrorKind::Unavailable => String::from_str("runtime command channel error"),
        };
        RuntimeError { kind, message }
    }

    /// A failure of the given kind with the given message.
    pub fn new(kind: ErrorKind, message: &str) -> (r: RuntimeError)
        ensures
            r@ == (kind, message@),
    {
        RuntimeError { kind, message: String::from_str(message) }
    }

    /// The message, for display.
    pub fn to_text(&self) -> (r: String)
        ensures
            r@ == self.message@,
    {
        self.message.clone()
    }
}

} // verus!
