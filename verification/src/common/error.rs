//! Error kinds and the error value that the library's fallible functions return.
use vstd::prelude::*;

verus! {

broadcast use vstd::string::group_string_axioms;

/// What went wrong.
#[derive(Debug, Clone, Copy, PartialEq, Eq, Structural)]
pub enum ErrorKind {
    NotFound,
    Upstream,
    InvParam,
    InvState,
    FileNotFound,
    DeviceNotFound,
    ExecProcess,
    NotImpl,
    ImageDownloaded,
    Displayed,
}

/// An error: its kind and a description of the circumstances.
#[derive(Debug)]
pub struct Error {
    pub kind: ErrorKind,
    pub context: String,
}

impl Error {
    pub fn new(kind: ErrorKind) -> (e: Error)
        ensures
            e.kind == kind,
            e.context@ == Seq::<char>::empty(),
    {
        Error { kind, context: String::new() }
    }

    pub fn with_context(kind: ErrorKind, context: &str) -> (e: Error)
        ensures
            e.kind == kind,
            e.context@ == context@,
    {
        Error { kind, context: context.to_string() }
    }

    /// An error whose message was already shown to the user.
    pub fn displayed() -> (e: Error)
        ensures
            e.kind == ErrorKind::Displayed,
    {
        Error::new(ErrorKind::Displayed)
    }

    pub fn kind(&self) -> (k: ErrorKind)
        ensures
            k == self.kind,
    {
        self.kind
    }

    /// A copy of the error.
    pub fn duplicate(&self) -> (e: Error)
        ensures
            e == *self,
    {
        Error { kind: self.kind, context: self.context.clone() }
    }
}

} // verus!
