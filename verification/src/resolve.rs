//! From a path to the id of the entry at it.

use vstd::prelude::*;

use crate::error::error_of;
use crate::error::FsError;
use crate::error::NfsStatus;
use crate::path::copy_bytes;
use crate::path::is_root;
use crate::path::names_root;
use crate::path::SLASH;
use crate::run::Call;
use crate::run::CallView;
use crate::run::FsCall;
use crate::run::FsReply;
use crate::run::refusal;
use crate::run::refused;
use crate::run::Reply;
use crate::run::ReplyView;

verus! {

/// The request that asks for the id of the entry at `path`. The root directory is not looked up.
pub open spec fn lookup(path: Seq<u8>) -> CallView {
    if names_root(path) {
        Call::RootDir
    } else {
        Call::PathToId { path }
    }
}

/// What the reply to a lookup says: the id of the entry, or that there is none.
pub open spec fn looked_up(reply: ReplyView) -> Result<Option<u64>, FsError> {
    match reply {
        Reply::Id(id) => Ok(Some(id)),
        Reply::Refused(NfsStatus::NoEnt) => Ok(None),
        refused => Err(refusal(refused)),
    }
}

/// Asks for the id of the entry at `path`.
pub fn resolve_path(path: &[u8]) -> (call: FsCall)
    ensures
        call@ == lookup(path@),
{
    if is_root(path) {
        Call::RootDir
    } else {
        Call::PathToId { path: copy_bytes(path) }
    }
}

/// Takes the reply to `resolve_path`: `None` if there is nothing at the path.
pub fn resolved(reply: &FsReply) -> (found: Result<Option<u64>, FsError>)
    ensures
        found == looked_up(reply@),
{
    match reply {
        Reply::Id(id) => Ok(Some(*id)),
        Reply::Refused(NfsStatus::NoEnt) => Ok(None),
        reply => Err(refused(reply)),
    }
}

/// The root directory, under either of its names, is asked for as such; every other path is asked
/// for as it stands.
pub proof fn law_lookup_asks_for_the_path_itself(path: Seq<u8>)
    ensures
        path.len() == 0 || path == seq![SLASH] ==> lookup(path) == CallView::RootDir,
        path.len() > 0 && path != seq![SLASH] ==> lookup(path) == (CallView::PathToId { path }),
{
}

/// A lookup finds the entry whose id comes back, and finds nothing where there is no entry. Every
/// other refusal is an error.
pub proof fn law_lookup_tells_missing_from_refused(id: u64, status: NfsStatus)
    ensures
        looked_up(Reply::Id(id)) == Ok::<Option<u64>, FsError>(Some(id)),
        looked_up(Reply::Refused(NfsStatus::NoEnt)) == Ok::<Option<u64>, FsError>(None),
        status != NfsStatus::NoEnt ==> looked_up(Reply::Refused(status)) == Err::<
            Option<u64>,
            FsError,
        >(error_of(status)),
{
}

} // verus!
