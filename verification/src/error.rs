use vstd::prelude::*;

verus! {

/// The kinds of I/O error that get a code of their own; every other kind is
/// `Other`.
#[derive(Debug, Clone, Copy, PartialEq, Eq, Structural)]
pub enum IoErrorKind {
    NotFound,
    PermissionDenied,
    AlreadyExists,
    InvalidInput,
    Other,
}

/// The code of an I/O error, as scripts see it.
pub open spec fn code_text(kind: IoErrorKind) -> Seq<char> {
    match kind {
        IoErrorKind::NotFound => "ENOENT"@,
        IoErrorKind::PermissionDenied => "EACCES"@,
        IoErrorKind::AlreadyExists => "EEXIST"@,
        IoErrorKind::InvalidInput => "EINVAL"@,
        IoErrorKind::Other => "UNKNOWN"@,
    }
}

/// The code of an I/O error.
pub fn code_of(kind: IoErrorKind) -> (code: &'static str)
    ensures
        code@ == code_text(kind),
{
    match kind {
        IoErrorKind::NotFound => "ENOENT",
        IoErrorKind::PermissionDenied => "EACCES",
        IoErrorKind::AlreadyExists => "EEXIST",
        IoErrorKind::InvalidInput => "EINVAL",
        IoErrorKind::Other => "UNKNOWN",
    }
}

/// A failed system call: its code, the call, the message and the path.
#[derive(Debug, Clone, PartialEq, Eq)]
pub struct SystemError {
    pub code: &'static str,
    pub syscall: &'static str,
    pub message: String,
    pub path: Option<String>,
}

impl SystemError {
    /// The error for an I/O error of kind `kind` with message `message`,
    /// raised by `syscall` on `path`.
    pub fn from_io(kind: IoErrorKind, message: String, syscall: &'static str, path: Option<String>) -> (e: Self)
        ensures
            e.code@ == code_text(kind),
            e.syscall == syscall,
            e.message == message,
            e.path == path,
    {
        SystemError { code: code_of(kind), syscall, message, path }
    }

    /// `<code>: <message>`, as the error displays.
    pub fn to_string(&self) -> (s: String)
        ensures
            s@ == self.code@ + ": "@ + self.message@,
    {
        let mut s = String::from_str(self.code);
        s.append(": ");
        s.append(self.message.as_str());
        s
    }
}

/// An error raised with a plain message.
#[derive(Debug, Clone, PartialEq, Eq)]
pub struct Exception(pub String);

impl Exception {
    /// The message, as the error displays.
    pub fn to_string(&self) -> (s: String)
        ensures
            s@ == self.0@,
    {
        self.0.clone()
    }
}

/// Why a path operation failed.
#[derive(Debug, Clone, PartialEq, Eq)]
pub enum PathError {
    System(SystemError),
    InvalidPath(String),
}

impl PathError {
    /// The error for an I/O error raised by `syscall` (no path).
    pub fn from_io(kind: IoErrorKind, message: String, syscall: &'static str) -> (e: Self)
        ensures
            e matches PathError::System(s) && s.code@ == code_text(kind) && s.syscall == syscall && s.message
                == message && s.path is None,
    {
        PathError::System(SystemError::from_io(kind, message, syscall, None))
    }

    /// An invalid path, with a message.
    pub fn invalid_path(msg: String) -> (e: Self)
        ensures
            e == PathError::InvalidPath(msg),
    {
        PathError::InvalidPath(msg)
    }
}

} // verus!
