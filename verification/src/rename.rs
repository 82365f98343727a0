//! Renaming an entry, which may move it to another directory.

use vstd::prelude::*;

use crate::error::error_of;
use crate::error::NfsStatus;
use crate::path::copy_bytes;
use crate::path::filename_from_path;
use crate::path::law_plain_name_is_in_the_root;
use crate::path::law_split_undoes_join;
use crate::path::law_trailing_slash_is_ignored;
use crate::path::name_of;
use crate::path::parent_of;
use crate::path::parent_path;
use crate::path::root_path;
use crate::path::SLASH;
use crate::resolve::lookup;
use crate::resolve::resolve_path;
use crate::run::Call;
use crate::run::fail;
use crate::run::FsReply;
use crate::run::leads;
use crate::run::lemma_first_and_rest;
use crate::run::lemma_one_more;
use crate::run::Move;
use crate::run::refused;
use crate::run::Reply;
use crate::run::ReplyView;
use crate::run::Run;
use crate::run::Step;

verus! {

/// What renaming the entry at `from` to `to` does: it looks up the two directories, first that of
/// `from`, and renames.
pub open spec fn rename_moves(from: Seq<u8>, to: Seq<u8>, replies: Seq<ReplyView>) -> Move<()> {
    if replies.len() == 0 {
        Move::Ask(lookup(parent_of(from)))
    } else {
        match replies[0] {
            Reply::Id(from_dir) => rename_from(from_dir, name_of(from), to, replies.skip(1)),
            refused => fail(refused),
        }
    }
}

/// Renaming the entry `from_name` of the directory `from_dir`.
pub open spec fn rename_from(
    from_dir: u64,
    from_name: Seq<u8>,
    to: Seq<u8>,
    replies: Seq<ReplyView>,
) -> Move<()> {
    if replies.len() == 0 {
        Move::Ask(lookup(parent_of(to)))
    } else {
        match replies[0] {
            Reply::Id(to_dir) => rename_into(
                from_dir,
                from_name,
                to_dir,
                name_of(to),
                replies.skip(1),
            ),
            refused => fail(refused),
        }
    }
}

/// Renaming, once both directories are known.
pub open spec fn rename_into(
    from_dir: u64,
    from_name: Seq<u8>,
    to_dir: u64,
    to_name: Seq<u8>,
    replies: Seq<ReplyView>,
) -> Move<()> {
    if replies.len() == 0 {
        Move::Ask(Call::Rename { from_dir, from_name, to_dir, to_name })
    } else {
        match replies[0] {
            Reply::Done => Move::Done(Ok(())),
            refused => fail(refused),
        }
    }
}

/// What renaming waits for.
enum Stage {
    /// The directory that holds the entry.
    From { from_name: Vec<u8>, to: Vec<u8> },
    /// The directory that will hold it.
    To { from_dir: u64, from_name: Vec<u8>, to_name: Vec<u8> },
    /// That the entry has been renamed.
    Renamed,
}

/// An entry that is being renamed.
pub struct RenameRun {
    stage: Stage,
}

/// Starts to rename the entry at `from` to `to`.
pub(crate) fn rename(from: &[u8], to: &[u8]) -> (step: Step<RenameRun, ()>)
    ensures
        leads(step, |replies: Seq<ReplyView>| rename_moves(from@, to@, replies)),
{
    let from_parent = parent_path(from);
    let from_name = filename_from_path(from);
    let call = resolve_path(from_parent.as_slice());
    Step::Ask(RenameRun { stage: Stage::From { from_name, to: copy_bytes(to) } }, call)
}

impl Run for RenameRun {
    type Output = ();

    closed spec fn ready(&self, reply: ReplyView) -> bool {
        true
    }

    closed spec fn after(&self, replies: Seq<ReplyView>) -> Move<()> {
        match self.stage {
            Stage::From { from_name, to } => match replies[0] {
                Reply::Id(from_dir) => rename_from(from_dir, from_name@, to@, replies.skip(1)),
                refused => fail(refused),
            },
            Stage::To { from_dir, from_name, to_name } => match replies[0] {
                Reply::Id(to_dir) => rename_into(
                    from_dir,
                    from_name@,
                    to_dir,
                    to_name@,
                    replies.skip(1),
                ),
                refused => fail(refused),
            },
            Stage::Renamed => match replies[0] {
                Reply::Done => Move::Done(Ok(())),
                refused => fail(refused),
            },
        }
    }

    fn accepts(&self, reply: &FsReply) -> (yes: bool) {
        true
    }

    fn resume(self, reply: FsReply) -> (step: Step<RenameRun, ()>) {
        proof {
            lemma_first_and_rest(reply@);
        }
        match self.stage {
            Stage::From { from_name, to } => match reply {
                Reply::Id(from_dir) => {
                    let to_parent = parent_path(to.as_slice());
                    let to_name = filename_from_path(to.as_slice());
                    let call = resolve_path(to_parent.as_slice());
                    Step::Ask(RenameRun { stage: Stage::To { from_dir, from_name, to_name } }, call)
                },
                reply => Step::Done(Err(refused(&reply))),
            },
            Stage::To { from_dir, from_name, to_name } => match reply {
                Reply::Id(to_dir) => {
                    let call = Call::Rename { from_dir, from_name, to_dir, to_name };
                    Step::Ask(RenameRun { stage: Stage::Renamed }, call)
                },
                reply => Step::Done(Err(refused(&reply))),
            },
            Stage::Renamed => match reply {
                Reply::Done => Step::Done(Ok(())),
                reply => Step::Done(Err(refused(&reply))),
            },
        }
    }
}

/// The only change that renaming makes is the one that was asked for: the entry of that name in
/// the directory that holds it, under its new name in the directory that will hold it.
pub proof fn law_rename_changes_only_what_it_may(
    from: Seq<u8>,
    to: Seq<u8>,
    replies: Seq<ReplyView>,
)
    ensures
        rename_moves(from, to, replies) matches Move::Ask(call) ==> match call {
            Call::RootDir | Call::PathToId { .. } => true,
            Call::Rename { from_dir, from_name, to_dir, to_name } => {
                &&& replies[0] == ReplyView::Id(from_dir)
                &&& replies[1] == ReplyView::Id(to_dir)
                &&& from_name == name_of(from)
                &&& to_name == name_of(to)
            },
            _ => false,
        },
{
}

/// Renaming succeeds where both directories are found and the file tree renames.
pub proof fn law_granted_rename_succeeds(from: Seq<u8>, to: Seq<u8>, replies: Seq<ReplyView>)
    requires
        replies.len() >= 3,
        replies[0] is Id,
        replies[1] is Id,
        replies[2] is Done,
    ensures
        rename_moves(from, to, replies) == Move::<()>::Done(Ok(())),
{
}

/// Renaming asks for at most three things.
pub proof fn law_rename_ends(from: Seq<u8>, to: Seq<u8>, replies: Seq<ReplyView>)
    requires
        replies.len() >= 3,
    ensures
        rename_moves(from, to, replies) is Done,
{
}

/// Renaming ends at the first refusal, with the error of that refusal.
pub proof fn law_refusal_ends_rename(
    from: Seq<u8>,
    to: Seq<u8>,
    replies: Seq<ReplyView>,
    status: NfsStatus,
)
    requires
        rename_moves(from, to, replies) is Ask,
    ensures
        rename_moves(from, to, replies.push(Reply::Refused(status))) == Move::<()>::Done(
            Err(error_of(status)),
        ),
{
    let refused = ReplyView::Refused(status);
    lemma_one_more(replies, refused);
    lemma_one_more(replies.skip(1), refused);
    lemma_one_more(replies.skip(1).skip(1), refused);
}

/// Renaming takes the entry at `from` and puts it at `to`: `name` of `dir` becomes `to_name` of
/// `to_dir`.
pub proof fn law_rename_moves_the_entry_to_where_it_was_asked(
    dir: Seq<u8>,
    name: Seq<u8>,
    to_dir: Seq<u8>,
    to_name: Seq<u8>,
    id: u64,
    to_id: u64,
)
    requires
        name.len() > 0,
        !name.contains(SLASH),
        to_name.len() > 0,
        !to_name.contains(SLASH),
    ensures
        rename_moves(dir + seq![SLASH] + name, to_dir + seq![SLASH] + to_name, seq![]) == Move::<
            (),
        >::Ask(lookup(dir)),
        rename_moves(
            dir + seq![SLASH] + name,
            to_dir + seq![SLASH] + to_name,
            seq![Reply::Id(id)],
        ) == Move::<()>::Ask(lookup(to_dir)),
        rename_moves(
            dir + seq![SLASH] + name,
            to_dir + seq![SLASH] + to_name,
            seq![Reply::Id(id), Reply::Id(to_id)],
        ) == Move::<()>::Ask(
            Call::Rename { from_dir: id, from_name: name, to_dir: to_id, to_name },
        ),
{
    assert(seq![SLASH] =~= root_path());
    law_split_undoes_join(dir, name);
    law_split_undoes_join(to_dir, to_name);
}

/// A plain name is taken from the root directory, whatever the new path is.
pub proof fn law_plain_name_is_renamed_from_the_root(
    name: Seq<u8>,
    to: Seq<u8>,
    id: u64,
    to_id: u64,
)
    requires
        !name.contains(SLASH),
    ensures
        rename_moves(name, to, seq![]) == Move::<()>::Ask(Call::RootDir),
        rename_moves(name, to, seq![Reply::Id(id), Reply::Id(to_id)]) matches Move::Ask(
            Call::Rename { from_dir, from_name, .. },
        ) && from_dir == id && from_name == name,
{
    law_plain_name_is_in_the_root(name);
    assert(seq![SLASH] =~= root_path());
}

/// A plain name is put into the root directory, whatever the old path is.
pub proof fn law_plain_name_is_renamed_into_the_root(
    from: Seq<u8>,
    name: Seq<u8>,
    id: u64,
    to_id: u64,
)
    requires
        !name.contains(SLASH),
    ensures
        rename_moves(from, name, seq![Reply::Id(id)]) == Move::<()>::Ask(Call::RootDir),
        rename_moves(from, name, seq![Reply::Id(id), Reply::Id(to_id)]) matches Move::Ask(
            Call::Rename { to_dir, to_name, .. },
        ) && to_dir == to_id && to_name == name,
{
    law_plain_name_is_in_the_root(name);
    assert(seq![SLASH] =~= root_path());
}

/// What happens to the old path does not depend on the new one, nor the other way round.
pub proof fn law_renamed_paths_do_not_mix(
    from: Seq<u8>,
    to: Seq<u8>,
    other_from: Seq<u8>,
    other_to: Seq<u8>,
    id: u64,
    to_id: u64,
)
    ensures
        rename_moves(from, to, seq![]) == rename_moves(from, other_to, seq![]),
        rename_moves(from, to, seq![Reply::Id(id)]) == rename_moves(
            other_from,
            to,
            seq![Reply::Id(id)],
        ),
        match (
            rename_moves(from, to, seq![Reply::Id(id), Reply::Id(to_id)]),
            rename_moves(from, other_to, seq![Reply::Id(id), Reply::Id(to_id)]),
            rename_moves(other_from, to, seq![Reply::Id(id), Reply::Id(to_id)]),
        ) {
            (
                Move::Ask(Call::Rename { from_dir, from_name, to_dir, to_name }),
                Move::Ask(Call::Rename { from_name: same_from, .. }),
                Move::Ask(Call::Rename { to_name: same_to, .. }),
            ) => from_dir == id && to_dir == to_id && same_from == from_name && same_to == to_name,
            _ => false,
        },
{
}

/// A slash at the end of either path makes no difference.
pub proof fn law_renamed_paths_may_end_in_a_slash(
    from: Seq<u8>,
    to: Seq<u8>,
    replies: Seq<ReplyView>,
)
    ensures
        rename_moves(from.push(SLASH), to, replies) == rename_moves(from, to, replies),
        rename_moves(from, to.push(SLASH), replies) == rename_moves(from, to, replies),
{
    law_trailing_slash_is_ignored(from);
    law_trailing_slash_is_ignored(to);
}

/// Renaming succeeds only where both directories were found and the file tree renamed.
pub proof fn law_rename_succeeds_only_when_granted(
    from: Seq<u8>,
    to: Seq<u8>,
    replies: Seq<ReplyView>,
)
    requires
        rename_moves(from, to, replies) == Move::<()>::Done(Ok(())),
    ensures
        replies.len() >= 3,
        replies[0] is Id,
        replies[1] is Id,
        replies[2] is Done,
{
}

} // verus!
