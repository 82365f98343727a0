//! The requests that the file tree can serve, its replies, and runs that alternate between them.

use bytes::Bytes;
use vstd::prelude::*;

use crate::attr::FileAttr;
use crate::attr::SetAttr;
use crate::buffer::content;
use crate::error::error_of;
use crate::error::FsError;
use crate::error::map_nfs_err;
use crate::error::NfsStatus;

verus! {

/// A request to the file tree. `N` holds paths and names, `D` holds file contents.
#[derive(Clone, Debug, PartialEq, Eq)]
pub enum Call<N, D> {
    /// The id of the root directory.
    RootDir,
    /// The id of the entry at a path.
    PathToId { path: N },
    /// The attributes of an entry.
    GetAttr { id: u64 },
    /// A change of the attributes of an entry.
    SetAttr { id: u64, attr: SetAttr },
    /// A new file `name` in the directory `dir`.
    Create { dir: u64, name: N, attr: SetAttr },
    /// Up to `count` bytes of a file, from `offset` on.
    Read { id: u64, offset: u64, count: u32 },
    /// `data` for a file, from `offset` on.
    Write { id: u64, offset: u64, data: D },
    /// Up to `max_entries` entries of a directory, those behind the entry `start_after`.
    ReadDir { id: u64, start_after: u64, max_entries: usize },
    /// A new directory `name` in the directory `dir`.
    MakeDir { dir: u64, name: N },
    /// No entry `name` in the directory `dir` any more.
    Remove { dir: u64, name: N },
    /// The entry `from_name` of `from_dir` as the entry `to_name` of `to_dir`.
    Rename { from_dir: u64, from_name: N, to_dir: u64, to_name: N },
}

/// A request as it is sent.
pub type FsCall = Call<Vec<u8>, Bytes>;

/// A request as a mathematical value.
pub type CallView = Call<Seq<u8>, Seq<u8>>;

impl View for Call<Vec<u8>, Bytes> {
    type V = Call<Seq<u8>, Seq<u8>>;

    open spec fn view(&self) -> Call<Seq<u8>, Seq<u8>> {
        match *self {
            Call::RootDir => Call::RootDir,
            Call::PathToId { path } => Call::PathToId { path: path@ },
            Call::GetAttr { id } => Call::GetAttr { id },
            Call::SetAttr { id, attr } => Call::SetAttr { id, attr },
            Call::Create { dir, name, attr } => Call::Create { dir, name: name@, attr },
            Call::Read { id, offset, count } => Call::Read { id, offset, count },
            Call::Write { id, offset, data } => Call::Write { id, offset, data: content(data) },
            Call::ReadDir { id, start_after, max_entries } => Call::ReadDir {
                id,
                start_after,
                max_entries,
            },
            Call::MakeDir { dir, name } => Call::MakeDir { dir, name: name@ },
            Call::Remove { dir, name } => Call::Remove { dir, name: name@ },
            Call::Rename { from_dir, from_name, to_dir, to_name } => Call::Rename {
                from_dir,
                from_name: from_name@,
                to_dir,
                to_name: to_name@,
            },
        }
    }
}

/// An entry of a directory, as the file tree lists it.
#[derive(Clone, Debug, PartialEq, Eq)]
pub struct Entry<N> {
    pub fileid: u64,
    pub name: N,
    pub attr: FileAttr,
}

impl View for Entry<Vec<u8>> {
    type V = Entry<Seq<u8>>;

    open spec fn view(&self) -> Entry<Seq<u8>> {
        Entry { fileid: self.fileid, name: self.name@, attr: self.attr }
    }
}

/// A reply of the file tree. `D` holds file contents, `L` a list of entries.
#[derive(Clone, Debug, PartialEq, Eq)]
pub enum Reply<D, L> {
    /// The request failed.
    Refused(NfsStatus),
    /// The id that was asked for.
    Id(u64),
    /// The attributes of the entry, as they are or as they have become.
    Attr(FileAttr),
    /// The id and the attributes of what was created.
    Created(u64, FileAttr),
    /// Bytes of a file, and whether they reach its end.
    Data(D, bool),
    /// Entries of a directory, and whether they reach its end.
    Entries(L, bool),
    /// The request was carried out.
    Done,
}

/// A reply as it is received.
pub type FsReply = Reply<Vec<u8>, Vec<Entry<Vec<u8>>>>;

/// A reply as a mathematical value.
pub type ReplyView = Reply<Seq<u8>, Seq<Entry<Seq<u8>>>>;

impl View for Reply<Vec<u8>, Vec<Entry<Vec<u8>>>> {
    type V = Reply<Seq<u8>, Seq<Entry<Seq<u8>>>>;

    open spec fn view(&self) -> Reply<Seq<u8>, Seq<Entry<Seq<u8>>>> {
        match *self {
            Reply::Refused(status) => Reply::Refused(status),
            Reply::Id(id) => Reply::Id(id),
            Reply::Attr(attr) => Reply::Attr(attr),
            Reply::Created(id, attr) => Reply::Created(id, attr),
            Reply::Data(data, eof) => Reply::Data(data@, eof),
            Reply::Entries(entries, end) => Reply::Entries(
                entries@.map_values(|e: Entry<Vec<u8>>| e@),
                end,
            ),
            Reply::Done => Reply::Done,
        }
    }
}

/// The error that a reply comes to where it does not bring what was asked for: that of the refusal.
/// A reply of another form than the request calls for is a general failure.
pub open spec fn refusal(reply: ReplyView) -> FsError {
    match reply {
        Reply::Refused(status) => error_of(status),
        _ => FsError::GeneralFailure,
    }
}

/// The error of a reply that does not bring what was asked for.
pub(crate) fn refused(reply: &FsReply) -> (error: FsError)
    ensures
        error == refusal(reply@),
{
    match reply {
        Reply::Refused(status) => map_nfs_err(*status),
        _ => FsError::GeneralFailure,
    }
}

/// What an operation does once it has the replies to all it has asked: it asks on, or it is done.
pub enum Move<T> {
    Ask(CallView),
    Done(Result<T, FsError>),
}

/// The end of an operation at a reply that does not bring what was asked for.
pub open spec fn fail<T>(reply: ReplyView) -> Move<T> {
    Move::Done(Err(refusal(reply)))
}

/// The result of an operation as a mathematical value.
pub open spec fn viewed<T: View>(result: Result<T, FsError>) -> Result<T::V, FsError> {
    match result {
        Ok(output) => Ok(output@),
        Err(error) => Err(error),
    }
}

/// Whether writing what `call` holds would leave the range of file offsets.
pub open spec fn beyond_last_offset(call: CallView) -> bool {
    match call {
        Call::Write { id: _, offset, data } => offset + data.len() > u64::MAX,
        _ => false,
    }
}

/// Where an operation stands: it waits for the reply to a request, or it is done.
pub enum Step<R, T> {
    Ask(R, FsCall),
    Done(Result<T, FsError>),
}

/// An operation that waits for a reply.
pub trait Run: Sized {
    /// What the operation yields where it succeeds.
    type Output: View;

    /// Whether the run can go on with `reply`.
    spec fn ready(&self, reply: ReplyView) -> bool;

    /// What the run does once it has got `replies`, the first of which is for what it waits for.
    spec fn after(&self, replies: Seq<ReplyView>) -> Move<<Self::Output as View>::V>;

    /// Whether the run can go on with `reply`. A run always can, but for the one that has written
    /// up to the last offset there is.
    fn accepts(&self, reply: &FsReply) -> (yes: bool)
        ensures
            yes == self.ready(reply@),
    ;

    /// Goes on with the reply to what the run has asked.
    fn resume(self, reply: FsReply) -> (step: Step<Self, Self::Output>)
        requires
            self.ready(reply@),
        ensures
            match step {
                Step::Ask(run, call) => {
                    &&& self.after(seq![reply@]) == Move::<<Self::Output as View>::V>::Ask(call@)
                    &&& forall|more: Seq<ReplyView>|
                        more.len() > 0 ==> #[trigger] run.after(more) == self.after(
                            seq![reply@] + more,
                        )
                    &&& forall|next: ReplyView|
                        next is Refused || !beyond_last_offset(call@) ==> #[trigger] run.ready(next)
                },
                Step::Done(result) => {
                    &&& self.after(seq![reply@]) == Move::Done(viewed(result))
                    &&& forall|more: Seq<ReplyView>|
                        #[trigger] self.after(seq![reply@] + more) == Move::Done(viewed(result))
                },
            },
    ;
}

/// Whether an operation at `step` does what `moves` says for all replies that are still to come.
pub open spec fn leads<R: Run>(
    step: Step<R, R::Output>,
    moves: spec_fn(Seq<ReplyView>) -> Move<<R::Output as View>::V>,
) -> bool {
    match step {
        Step::Ask(run, call) => {
            &&& moves(Seq::empty()) == Move::<<R::Output as View>::V>::Ask(call@)
            &&& forall|more: Seq<ReplyView>|
                more.len() > 0 ==> #[trigger] run.after(more) == moves(more)
            &&& forall|next: ReplyView|
                next is Refused || !beyond_last_offset(call@) ==> #[trigger] run.ready(next)
        },
        Step::Done(result) => forall|more: Seq<ReplyView>|
            #[trigger] moves(more) == Move::Done(viewed(result)),
    }
}

/// A first reply in front of others is the first of them all, and the others are the rest.
pub(crate) proof fn lemma_first_and_rest(reply: ReplyView)
    ensures
        forall|more: Seq<ReplyView>| (#[trigger] (seq![reply] + more)).len() == 1 + more.len(),
        forall|more: Seq<ReplyView>| (#[trigger] (seq![reply] + more))[0] == reply,
        forall|more: Seq<ReplyView>| (#[trigger] (seq![reply] + more)).skip(1) == more,
        seq![reply].skip(1) == Seq::<ReplyView>::empty(),
{
    assert forall|more: Seq<ReplyView>| (#[trigger] (seq![reply] + more)).skip(1) == more by {
        assert((seq![reply] + more).skip(1) =~= more);
    }
    assert(seq![reply].skip(1) =~= Seq::<ReplyView>::empty());
}

/// A reply behind others is the last of them all; what stands first stays first.
pub(crate) proof fn lemma_one_more(replies: Seq<ReplyView>, reply: ReplyView)
    ensures
        replies.len() == 0 ==> replies.push(reply)[0] == reply,
        replies.len() > 0 ==> replies.push(reply)[0] == replies[0] && replies.push(reply).skip(1)
            == replies.skip(1).push(reply),
{
    if replies.len() > 0 {
        assert(replies.push(reply).skip(1) =~= replies.skip(1).push(reply));
    }
}

/// Whether `reply` brings what `call` asks for.
pub open spec fn grants(call: CallView, reply: ReplyView) -> bool {
    match call {
        Call::RootDir | Call::PathToId { .. } => reply is Id,
        Call::GetAttr { .. } | Call::SetAttr { .. } | Call::Write { .. } => reply is Attr,
        Call::Create { .. } | Call::MakeDir { .. } => reply is Created,
        Call::Read { .. } => reply is Data,
        Call::ReadDir { .. } => reply is Entries,
        Call::Remove { .. } | Call::Rename { .. } => reply is Done,
    }
}

/// Whether all that an operation asks on its way through `replies` is granted.
pub open spec fn all_granted<T>(
    moves: spec_fn(Seq<ReplyView>) -> Move<T>,
    replies: Seq<ReplyView>,
) -> bool {
    forall|k: int|
        0 <= k < replies.len() ==> match #[trigger] moves(replies.take(k)) {
            Move::Ask(call) => grants(call, replies[k]),
            Move::Done(_) => true,
        }
}

} // verus!
