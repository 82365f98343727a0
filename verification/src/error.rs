//! Status codes of the file tree and the errors that a WebDAV client sees.

use vstd::prelude::*;

verus! {

/// The status codes with which the file tree refuses a request (RFC 1813, section 2.6).
#[derive(Clone, Copy, Debug, PartialEq, Eq, Structural)]
pub enum NfsStatus {
    Success,
    Perm,
    NoEnt,
    Io,
    Nxio,
    Acces,
    Exist,
    Xdev,
    NoDev,
    NotDir,
    IsDir,
    Inval,
    Fbig,
    NoSpc,
    Rofs,
    Mlink,
    NameTooLong,
    NotEmpty,
    Dquot,
    Stale,
    Remote,
    BadHandle,
    NotSync,
    BadCookie,
    NotSupp,
    TooSmall,
    ServerFault,
    BadType,
    Jukebox,
}

/// The errors that the WebDAV side reports.
#[derive(Clone, Copy, Debug, PartialEq, Eq, Structural)]
pub enum FsError {
    NotImplemented,
    GeneralFailure,
    Exists,
    NotFound,
    Forbidden,
}

/// The error that a client sees for a status of the file tree. A status without an entry of its
/// own is a general failure.
pub open spec fn error_of(status: NfsStatus) -> FsError {
    match status {
        NfsStatus::NoEnt => FsError::NotFound,
        NfsStatus::Exist => FsError::Exists,
        NfsStatus::Acces | NfsStatus::NotDir | NfsStatus::IsDir | NfsStatus::Rofs => {
            FsError::Forbidden
        },
        NfsStatus::NotSupp => FsError::NotImplemented,
        _ => FsError::GeneralFailure,
    }
}

/// Translates a status of the file tree into the error that a client sees.
pub fn map_nfs_err(e: NfsStatus) -> (error: FsError)
    ensures
        error == error_of(e),
{
    match e {
        NfsStatus::NoEnt => FsError::NotFound,
        NfsStatus::Exist => FsError::Exists,
        NfsStatus::Acces => FsError::Forbidden,
        NfsStatus::NotDir => FsError::Forbidden,
        NfsStatus::IsDir => FsError::Forbidden,
        NfsStatus::Io => FsError::GeneralFailure,
        NfsStatus::NotSupp => FsError::NotImplemented,
        NfsStatus::Rofs => FsError::Forbidden,
        _ => FsError::GeneralFailure,
    }
}

/// Each error stands for the statuses it should, and for no others; all other statuses are general
/// failures.
pub proof fn law_errors(status: NfsStatus)
    ensures
        error_of(status) == FsError::NotFound <==> status == NfsStatus::NoEnt,
        error_of(status) == FsError::Exists <==> status == NfsStatus::Exist,
        error_of(status) == FsError::NotImplemented <==> status == NfsStatus::NotSupp,
        error_of(status) == FsError::Forbidden <==> status == NfsStatus::Acces || status
            == NfsStatus::NotDir || status == NfsStatus::IsDir || status == NfsStatus::Rofs,
{
}

} // verus!
