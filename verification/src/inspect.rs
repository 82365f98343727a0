//! Asking what is at a path: its metadata, or the entries of a directory.

use vstd::prelude::*;

use crate::attr::FileAttr;
use crate::attr::MirrorDavMetaData;
use crate::error::error_of;
use crate::error::NfsStatus;
use crate::listing::listed;
use crate::listing::listing;
use crate::listing::MirrorDavDirEntry;
use crate::listing::MirrorDavStream;
use crate::resolve::lookup;
use crate::resolve::resolve_path;
use crate::run::Call;
use crate::run::Entry;
use crate::run::fail;
use crate::run::FsReply;
use crate::run::leads;
use crate::run::lemma_first_and_rest;
use crate::run::lemma_one_more;
use crate::run::Move;
use crate::run::refused;
use crate::run::Reply;
use crate::run::ReplyView;
use crate::run::Run;
use crate::run::Step;

verus! {

/// The most entries that a listing holds.
pub const MAX_ENTRIES: usize = 10_000;

/// What asking for the metadata of the entry at `path` does: it looks the entry up and asks for
/// its attributes.
pub open spec fn metadata_moves(path: Seq<u8>, replies: Seq<ReplyView>) -> Move<FileAttr> {
    if replies.len() == 0 {
        Move::Ask(lookup(path))
    } else {
        match replies[0] {
            Reply::Id(id) => metadata_of(id, replies.skip(1)),
            refused => fail(refused),
        }
    }
}

/// Asking for the metadata of the entry `id`.
pub open spec fn metadata_of(id: u64, replies: Seq<ReplyView>) -> Move<FileAttr> {
    if replies.len() == 0 {
        Move::Ask(Call::GetAttr { id })
    } else {
        match replies[0] {
            Reply::Attr(attr) => Move::Done(Ok(attr)),
            refused => fail(refused),
        }
    }
}

/// What listing the directory at `path` does: it looks the directory up and asks for its entries
/// from the first one on.
pub open spec fn read_dir_moves(path: Seq<u8>, replies: Seq<ReplyView>) -> Move<
    Seq<(Seq<u8>, FileAttr)>,
> {
    if replies.len() == 0 {
        Move::Ask(lookup(path))
    } else {
        match replies[0] {
            Reply::Id(id) => read_dir_of(id, replies.skip(1)),
            refused => fail(refused),
        }
    }
}

/// Listing the directory `id`.
pub open spec fn read_dir_of(id: u64, replies: Seq<ReplyView>) -> Move<Seq<(Seq<u8>, FileAttr)>> {
    if replies.len() == 0 {
        Move::Ask(Call::ReadDir { id, start_after: 0, max_entries: MAX_ENTRIES })
    } else {
        match replies[0] {
            Reply::Entries(entries, _) => Move::Done(Ok(listed(entries))),
            refused => fail(refused),
        }
    }
}

/// What a question about a path waits for.
enum Stage {
    /// The entry.
    Found,
    /// What was asked about it.
    Told,
}

/// A question for the metadata of an entry.
pub struct MetadataRun {
    stage: Stage,
}

/// A question for the entries of a directory.
pub struct ReadDirRun {
    stage: Stage,
}

/// Starts to ask for the metadata of the entry at `path`.
pub(crate) fn metadata(path: &[u8]) -> (step: Step<MetadataRun, MirrorDavMetaData>)
    ensures
        leads(step, |replies: Seq<ReplyView>| metadata_moves(path@, replies)),
{
    Step::Ask(MetadataRun { stage: Stage::Found }, resolve_path(path))
}

/// Starts to list the directory at `path`.
pub(crate) fn read_dir(path: &[u8]) -> (step: Step<ReadDirRun, MirrorDavStream<MirrorDavDirEntry>>)
    ensures
        leads(step, |replies: Seq<ReplyView>| read_dir_moves(path@, replies)),
{
    Step::Ask(ReadDirRun { stage: Stage::Found }, resolve_path(path))
}

impl Run for MetadataRun {
    type Output = MirrorDavMetaData;

    closed spec fn ready(&self, reply: ReplyView) -> bool {
        true
    }

    closed spec fn after(&self, replies: Seq<ReplyView>) -> Move<FileAttr> {
        match self.stage {
            Stage::Found => match replies[0] {
                Reply::Id(id) => metadata_of(id, replies.skip(1)),
                refused => fail(refused),
            },
            Stage::Told => match replies[0] {
                Reply::Attr(attr) => Move::Done(Ok(attr)),
                refused => fail(refused),
            },
        }
    }

    fn accepts(&self, reply: &FsReply) -> (yes: bool) {
        true
    }

    fn resume(self, reply: FsReply) -> (step: Step<MetadataRun, MirrorDavMetaData>) {
        proof {
            lemma_first_and_rest(reply@);
        }
        match (self.stage, reply) {
            (Stage::Found, Reply::Id(id)) => Step::Ask(
                MetadataRun { stage: Stage::Told },
                Call::GetAttr { id },
            ),
            (Stage::Told, Reply::Attr(attr)) => Step::Done(Ok(MirrorDavMetaData { attr })),
            (_, reply) => Step::Done(Err(refused(&reply))),
        }
    }
}

impl Run for ReadDirRun {
    type Output = MirrorDavStream<MirrorDavDirEntry>;

    closed spec fn ready(&self, reply: ReplyView) -> bool {
        true
    }

    closed spec fn after(&self, replies: Seq<ReplyView>) -> Move<Seq<(Seq<u8>, FileAttr)>> {
        match self.stage {
            Stage::Found => match replies[0] {
                Reply::Id(id) => read_dir_of(id, replies.skip(1)),
                refused => fail(refused),
            },
            Stage::Told => match replies[0] {
                Reply::Entries(entries, _) => Move::Done(Ok(listed(entries))),
                refused => fail(refused),
            },
        }
    }

    fn accepts(&self, reply: &FsReply) -> (yes: bool) {
        true
    }

    fn resume(self, reply: FsReply) -> (step: Step<
        ReadDirRun,
        MirrorDavStream<MirrorDavDirEntry>,
    >) {
        proof {
            lemma_first_and_rest(reply@);
        }
        match (self.stage, reply) {
            (Stage::Found, Reply::Id(id)) => Step::Ask(
                ReadDirRun { stage: Stage::Told },
                Call::ReadDir { id, start_after: 0, max_entries: MAX_ENTRIES },
            ),
            (Stage::Told, Reply::Entries(entries, _)) => Step::Done(Ok(listing(entries))),
            (_, reply) => Step::Done(Err(refused(&reply))),
        }
    }
}

/// A listing holds the entries of the directory, each once and in the order in which the file
/// tree lists them, with their names and attributes.
pub proof fn law_listing_holds_the_entries(path: Seq<u8>, replies: Seq<ReplyView>)
    ensures
        read_dir_moves(path, replies) matches Move::Done(Ok(listing)) ==> {
            &&& replies[1] matches Reply::Entries(entries, _)
            &&& listing.len() == entries.len()
            &&& forall|i: int|
                0 <= i < entries.len() ==> #[trigger] listing[i] == (entries[i].name, entries[i].attr)
        },
{
}

/// Asking about a path changes nothing.
pub proof fn law_questions_change_nothing(path: Seq<u8>, replies: Seq<ReplyView>)
    ensures
        metadata_moves(path, replies) matches Move::Ask(call) ==> call is RootDir
            || call is PathToId || call is GetAttr,
        read_dir_moves(path, replies) matches Move::Ask(call) ==> call is RootDir
            || call is PathToId || call is ReadDir,
{
}

/// The metadata of an entry are the attributes that the file tree gives for it.
pub proof fn law_metadata_are_the_attributes(
    path: Seq<u8>,
    id: u64,
    attr: FileAttr,
    replies: Seq<ReplyView>,
)
    requires
        replies.len() >= 2,
        replies[0] == ReplyView::Id(id),
        replies[1] == ReplyView::Attr(attr),
    ensures
        metadata_moves(path, replies) == Move::<FileAttr>::Done(Ok(attr)),
{
}

/// These questions ask the file tree for at most two things.
pub proof fn law_questions_end(path: Seq<u8>, replies: Seq<ReplyView>)
    requires
        replies.len() >= 2,
    ensures
        metadata_moves(path, replies) is Done,
        read_dir_moves(path, replies) is Done,
{
}

/// These questions end at the first refusal, with the error of that refusal.
pub proof fn law_refusal_ends_questions(
    path: Seq<u8>,
    replies: Seq<ReplyView>,
    status: NfsStatus,
)
    ensures
        metadata_moves(path, replies) is Ask ==> metadata_moves(
            path,
            replies.push(Reply::Refused(status)),
        ) == Move::<FileAttr>::Done(Err(error_of(status))),
        read_dir_moves(path, replies) is Ask ==> read_dir_moves(
            path,
            replies.push(Reply::Refused(status)),
        ) == Move::<Seq<(Seq<u8>, FileAttr)>>::Done(Err(error_of(status))),
{
    let refused = ReplyView::Refused(status);
    lemma_one_more(replies, refused);
    lemma_one_more(replies.skip(1), refused);
}

/// Metadata are asked of the entry at the path itself.
pub proof fn law_metadata_are_of_the_entry_at_the_path(path: Seq<u8>, id: u64)
    ensures
        metadata_moves(path, seq![]) == Move::<FileAttr>::Ask(lookup(path)),
        metadata_moves(path, seq![Reply::Id(id)]) == Move::<FileAttr>::Ask(Call::GetAttr { id }),
{
}

/// A listing is asked of the directory at the path itself, from its first entry on.
pub proof fn law_listing_is_of_the_directory_at_the_path(path: Seq<u8>, id: u64)
    ensures
        read_dir_moves(path, seq![]) == Move::<Seq<(Seq<u8>, FileAttr)>>::Ask(lookup(path)),
        read_dir_moves(path, seq![Reply::Id(id)]) == Move::<Seq<(Seq<u8>, FileAttr)>>::Ask(
            Call::ReadDir { id, start_after: 0, max_entries: 10_000 },
        ),
{
}

/// Listing succeeds where the directory is found and the file tree lists it, whether or not the
/// entries reach the end of the directory, and it holds just these entries.
pub proof fn law_listed_directory_is_listed(
    path: Seq<u8>,
    entries: Seq<Entry<Seq<u8>>>,
    end: bool,
    replies: Seq<ReplyView>,
)
    requires
        replies.len() >= 2,
        replies[0] is Id,
        replies[1] == ReplyView::Entries(entries, end),
    ensures
        read_dir_moves(path, replies) matches Move::Done(Ok(listing)) && {
            &&& listing.len() == entries.len()
            &&& forall|i: int|
                0 <= i < entries.len() ==> #[trigger] listing[i] == (entries[i].name, entries[i].attr)
        },
{
}

/// A question is answered only where the entry was found and the file tree told of it.
pub proof fn law_answers_come_from_the_tree(path: Seq<u8>, replies: Seq<ReplyView>)
    ensures
        metadata_moves(path, replies) matches Move::Done(Ok(attr)) ==> {
            &&& replies.len() >= 2
            &&& replies[0] is Id
            &&& replies[1] == ReplyView::Attr(attr)
        },
        read_dir_moves(path, replies) matches Move::Done(Ok(_)) ==> {
            &&& replies.len() >= 2
            &&& replies[0] is Id
            &&& replies[1] is Entries
        },
{
}

} // verus!
