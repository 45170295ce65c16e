//! The engine's error kinds and how they are rendered for people.
use vstd::prelude::*;

use crate::text::{join, join_with, signed_decimal, signed_decimal_string};

verus! {

/// Everything the engine can fail with.
#[derive(Debug, Clone)]
pub enum Error {
    /// An error that the object store reported, with its message.
    ObjectStore(String),
    NoBootDeployment,
    NoPreviousDeployment,
    /// A deployment without an origin keyfile: its checksum and serial.
    NoOriginForDeployment(String, i32),
    /// The ref is still unknown after a pull.
    NoRevisionForRefSpec(String),
    /// A merged deployment's commit does not record its base commit.
    MissingBaseChecksum,
    /// A merged deployment's commit does not record this extension's commit.
    MissingExtensionChecksum(String),
    PermissionDenied(String),
    FailedTryLock,
    /// The kernel refused a new mount namespace, with its errno.
    FailedSetupNamespace(i32),
    NoRemoteFound,
    EngineIsBusy,
    /// Text that is not of the shape `[remote:]arch/kind/id[/channel]`.
    BadRefspec(String),
}

/// The one-line message of `e`, without its cause.
pub open spec fn message_of(e: Error) -> Seq<char> {
    match e {
        Error::ObjectStore(_) => "object store"@,
        Error::NoBootDeployment => "no boot deployment"@,
        Error::NoPreviousDeployment => "no previous deployment"@,
        Error::NoOriginForDeployment(c, n) => "no origin known for deployment "@ + c@ + "."@
            + signed_decimal(n as int),
        Error::NoRevisionForRefSpec(r) => "no revision for refspec "@ + r@,
        Error::MissingBaseChecksum => "no base checksum"@,
        Error::MissingExtensionChecksum(id) => "no extension checksum "@ + id@,
        Error::PermissionDenied(m) => "permission denied "@ + m@,
        Error::FailedTryLock => "failed to lock sysroot"@,
        Error::FailedSetupNamespace(n) => "failed to setup namespace "@ + signed_decimal(n as int),
        Error::NoRemoteFound => "no remote found"@,
        Error::EngineIsBusy => "engine is busy"@,
        Error::BadRefspec(r) => "bad refspec "@ + r@,
    }
}

/// The messages of `e` and of its causes, outermost first.
pub open spec fn sources_of(e: Error) -> Seq<Seq<char>> {
    match e {
        Error::ObjectStore(inner) => seq![message_of(e), inner@],
        _ => seq![message_of(e)],
    }
}

/// The chain of `e` as one line: `ERROR: ` and the messages joined by `": "`.
pub open spec fn error_line(e: Error) -> Seq<char> {
    "ERROR: "@ + join(sources_of(e), ": "@)
}

impl Error {
    /// The one-line message of this error, without its cause.
    pub fn message(&self) -> (r: String)
        ensures
            r@ == message_of(*self),
    {
        match self {
            Error::ObjectStore(_) => String::from_str("object store"),
            Error::NoBootDeployment => String::from_str("no boot deployment"),
            Error::NoPreviousDeployment => String::from_str("no previous deployment"),
            Error::NoOriginForDeployment(c, n) => {
                let mut r = String::from_str("no origin known for deployment ");
                r.append(c.as_str());
                r.append(".");
                let d = signed_decimal_string(*n);
                r.append(d.as_str());
                r
            },
            Error::NoRevisionForRefSpec(refspec) => String::from_str("no revision for refspec ").concat(
                refspec.as_str(),
            ),
            Error::MissingBaseChecksum => String::from_str("no base checksum"),
            Error::MissingExtensionChecksum(id) => String::from_str("no extension checksum ").concat(
                id.as_str(),
            ),
            Error::PermissionDenied(m) => String::from_str("permission denied ").concat(m.as_str()),
            Error::FailedTryLock => String::from_str("failed to lock sysroot"),
            Error::FailedSetupNamespace(n) => {
                let d = signed_decimal_string(*n);
                String::from_str("failed to setup namespace ").concat(d.as_str())
            },
            Error::NoRemoteFound => String::from_str("no remote found"),
            Error::EngineIsBusy => String::from_str("engine is busy"),
            Error::BadRefspec(refspec) => String::from_str("bad refspec ").concat(refspec.as_str()),
        }
    }
}

/// The messages of `error` and of its causes, outermost first.
pub fn sources(error: &Error) -> (r: Vec<String>)
    ensures
        r.deep_view() == sources_of(*error),
{
    let mut r: Vec<String> = Vec::new();
    r.push(error.message());
    match error {
        Error::ObjectStore(inner) => {
            r.push(inner.clone());
        },
        _ => {},
    }
    assert(r.deep_view() =~= sources_of(*error));
    r
}

/// The chain of `error` as one line: `ERROR: ` and the messages joined by `": "`.
pub fn get_error_str(error: &Error) -> (r: String)
    ensures
        r@ == error_line(*error),
{
    let chain = sources(error);
    let joined = join_with(&chain, ": ");
    String::from_str("ERROR: ").concat(joined.as_str())
}

} // verus!
