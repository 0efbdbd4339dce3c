//! Error kinds of the migrator and their descriptions.
use vstd::prelude::*;

use crate::common::{Error, ErrorKind};
use crate::text::{push_str, string_from_chars, push_chars, str_chars};

verus! {

broadcast use vstd::string::group_string_axioms;

#[derive(Copy, Clone, Eq, PartialEq, Debug, Structural)]
pub enum MigErrorKind {
    NotFound,
    Duplicate,
    Upstream,
    Unknown,
    InvOSType,
    NotImpl,
    CmdIO,
    InvParam,
    InvState,
    PgmNotFound,
    FeatureMissing,
    ExecProcess,
    WinApi,
    WmiInit,
    WmiQueryFailed,
    PSFailed,
    AuthError,
    MutAccess,
    NoMatch,
    Timeout,
    Displayed,
}

/// The sentence that describes each kind.
pub open spec fn kind_description(k: MigErrorKind) -> Seq<char> {
    match k {
        MigErrorKind::NotFound => "A required item could not be found"@,
        MigErrorKind::Duplicate => "An duplicate item was encountered where it should be unique"@,
        MigErrorKind::Upstream => "An error occured in an upstream function"@,
        MigErrorKind::Unknown => "An unknown error occurred"@,
        MigErrorKind::InvOSType => "The OS type is not supported"@,
        MigErrorKind::NotImpl => "The function has not been implemented yet"@,
        MigErrorKind::CmdIO => "A command IO stream operation failed"@,
        MigErrorKind::InvParam => "An invalid value was encountered"@,
        MigErrorKind::InvState => "An invalid state was encountered"@,
        MigErrorKind::PgmNotFound => "A required program could not be found"@,
        MigErrorKind::FeatureMissing => "A required feature is not available"@,
        MigErrorKind::ExecProcess => "A spawned process returned an error code"@,
        MigErrorKind::WinApi => "An error occurred calling a WINAPI"@,
        MigErrorKind::WmiInit => "Initialization of WMI"@,
        MigErrorKind::WmiQueryFailed => "A WMI query failed"@,
        MigErrorKind::PSFailed => "A Powershell command failed"@,
        MigErrorKind::AuthError => "You are not authorized to execute this command"@,
        MigErrorKind::MutAccess => "Mutual access failed"@,
        MigErrorKind::NoMatch => "No Match"@,
        MigErrorKind::Timeout => "Timeout waiting for event"@,
        MigErrorKind::Displayed => "Displayed"@,
    }
}

impl MigErrorKind {
    /// The kind's description, as its `Display` writes it.
    pub fn description(&self) -> (s: &'static str)
        ensures
            s@ == kind_description(*self),
    {
        match self {
            MigErrorKind::NotFound => "A required item could not be found",
            MigErrorKind::Duplicate => "An duplicate item was encountered where it should be unique",
            MigErrorKind::Upstream => "An error occured in an upstream function",
            MigErrorKind::Unknown => "An unknown error occurred",
            MigErrorKind::InvOSType => "The OS type is not supported",
            MigErrorKind::NotImpl => "The function has not been implemented yet",
            MigErrorKind::CmdIO => "A command IO stream operation failed",
            MigErrorKind::InvParam => "An invalid value was encountered",
            MigErrorKind::InvState => "An invalid state was encountered",
            MigErrorKind::PgmNotFound => "A required program could not be found",
            MigErrorKind::FeatureMissing => "A required feature is not available",
            MigErrorKind::ExecProcess => "A spawned process returned an error code",
            MigErrorKind::WinApi => "An error occurred calling a WINAPI",
            MigErrorKind::WmiInit => "Initialization of WMI",
            MigErrorKind::WmiQueryFailed => "A WMI query failed",
            MigErrorKind::PSFailed => "A Powershell command failed",
            MigErrorKind::AuthError => "You are not authorized to execute this command",
            MigErrorKind::MutAccess => "Mutual access failed",
            MigErrorKind::NoMatch => "No Match",
            MigErrorKind::Timeout => "Timeout waiting for event",
            MigErrorKind::Displayed => "Displayed",
        }
    }
}

/// An error kind with a remark.
#[derive(Debug)]
pub struct MigErrCtx {
    pub kind: MigErrorKind,
    pub descr: String,
}

/// `Error: <description>`, followed by `, <remark>` where there is a remark.
pub open spec fn ctx_display(kind: MigErrorKind, descr: Seq<char>) -> Seq<char> {
    if descr.len() == 0 {
        "Error: "@ + kind_description(kind)
    } else {
        "Error: "@ + kind_description(kind) + ", "@ + descr
    }
}

impl MigErrCtx {
    pub fn from_remark(kind: MigErrorKind, descr: &str) -> (r: MigErrCtx)
        ensures
            r.kind == kind,
            r.descr@ == descr@,
    {
        MigErrCtx { kind, descr: descr.to_string() }
    }

    /// A context with no remark.
    pub fn from_kind(kind: MigErrorKind) -> (r: MigErrCtx)
        ensures
            r.kind == kind,
            r.descr@ == Seq::<char>::empty(),
    {
        MigErrCtx { kind, descr: String::new() }
    }

    /// The text that `Display` shows for the context.
    pub fn to_display_string(&self) -> (s: String)
        ensures
            s@ == ctx_display(self.kind, self.descr@),
    {
        let mut v: Vec<char> = Vec::new();
        push_str(&mut v, "Error: ");
        push_str(&mut v, self.kind.description());
        let d = str_chars(self.descr.as_str());
        if d.len() > 0 {
            push_str(&mut v, ", ");
            push_chars(&mut v, d.as_slice());
        }
        string_from_chars(v.as_slice())
    }
}

/// A migrator error, carrying its context.
#[derive(Debug)]
pub struct MigError {
    pub inner: MigErrCtx,
}

impl MigError {
    pub fn kind(&self) -> (k: MigErrorKind)
        ensures
            k == self.inner.kind,
    {
        self.inner.kind
    }

    pub fn from_remark(kind: MigErrorKind, remark: &str) -> (r: MigError)
        ensures
            r.inner.kind == kind,
            r.inner.descr@ == remark@,
    {
        MigError { inner: MigErrCtx::from_remark(kind, remark) }
    }

    /// An error whose message was already shown.
    pub fn displayed() -> (r: MigError)
        ensures
            r.inner.kind == MigErrorKind::Displayed,
            r.inner.descr@ == Seq::<char>::empty(),
    {
        MigError { inner: MigErrCtx::from_kind(MigErrorKind::Displayed) }
    }

    /// The text that `Display` shows for the error.
    pub fn to_display_string(&self) -> (s: String)
        ensures
            s@ == ctx_display(self.inner.kind, self.inner.descr@),
    {
        self.inner.to_display_string()
    }

    /// The same error as an `Error` of the takeover program, with its
    /// description (see `error_kind_of`).
    pub fn as_error(&self) -> (e: Error)
        ensures
            e.kind == error_kind_of(self.inner.kind),
            e.context@ == self.inner.descr@,
    {
        let kind = match self.inner.kind {
            MigErrorKind::NotFound => ErrorKind::NotFound,
            MigErrorKind::InvParam => ErrorKind::InvParam,
            MigErrorKind::InvState => ErrorKind::InvState,
            MigErrorKind::NotImpl => ErrorKind::NotImpl,
            MigErrorKind::ExecProcess => ErrorKind::ExecProcess,
            MigErrorKind::Displayed => ErrorKind::Displayed,
            _ => ErrorKind::Upstream,
        };
        Error { kind, context: self.inner.descr.clone() }
    }
}

/// The kind of the takeover program's errors that a migrator error kind
/// corresponds to: the kinds that both have map to themselves, all others
/// are errors of an upstream function.
pub open spec fn error_kind_of(k: MigErrorKind) -> ErrorKind {
    match k {
        MigErrorKind::NotFound => ErrorKind::NotFound,
        MigErrorKind::InvParam => ErrorKind::InvParam,
        MigErrorKind::InvState => ErrorKind::InvState,
        MigErrorKind::NotImpl => ErrorKind::NotImpl,
        MigErrorKind::ExecProcess => ErrorKind::ExecProcess,
        MigErrorKind::Displayed => ErrorKind::Displayed,
        _ => ErrorKind::Upstream,
    }
}

} // verus!
