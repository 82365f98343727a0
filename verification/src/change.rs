//! Changes that one request makes once an entry has been looked up: a new directory, a removal,
//! new attributes.

use vstd::prelude::*;

use crate::attr::SetAttr;
use crate::error::error_of;
use crate::error::NfsStatus;
use crate::path::filename_from_path;
use crate::path::law_plain_name_is_in_the_root;
use crate::path::law_split_undoes_join;
use crate::path::law_trailing_slash_is_ignored;
use crate::path::name_of;
use crate::path::parent_of;
use crate::path::parent_path;
use crate::path::root_path;
use crate::path::SLASH;
use crate::resolve::lookup;
use crate::resolve::resolve_path;
use crate::run::Call;
use crate::run::fail;
use crate::run::FsReply;
use crate::run::leads;
use crate::run::lemma_first_and_rest;
use crate::run::lemma_one_more;
use crate::run::Move;
use crate::run::refused;
use crate::run::Reply;
use crate::run::ReplyView;
use crate::run::Run;
use crate::run::Step;

verus! {

/// What making the directory at `path` does: it looks up the directory around it and makes it
/// there.
pub open spec fn create_dir_moves(path: Seq<u8>, replies: Seq<ReplyView>) -> Move<()> {
    if replies.len() == 0 {
        Move::Ask(lookup(parent_of(path)))
    } else {
        match replies[0] {
            Reply::Id(dir) => make_dir_in(dir, name_of(path), replies.skip(1)),
            refused => fail(refused),
        }
    }
}

/// Making the directory `name` in the directory `dir`.
pub open spec fn make_dir_in(dir: u64, name: Seq<u8>, replies: Seq<ReplyView>) -> Move<()> {
    if replies.len() == 0 {
        Move::Ask(Call::MakeDir { dir, name })
    } else {
        match replies[0] {
            Reply::Created(_, _) => Move::Done(Ok(())),
            refused => fail(refused),
        }
    }
}

/// What removing the entry at `path` does: it looks up the directory around it and removes it
/// there.
pub open spec fn remove_moves(path: Seq<u8>, replies: Seq<ReplyView>) -> Move<()> {
    if replies.len() == 0 {
        Move::Ask(lookup(parent_of(path)))
    } else {
        match replies[0] {
            Reply::Id(dir) => remove_from(dir, name_of(path), replies.skip(1)),
            refused => fail(refused),
        }
    }
}

/// Removing the entry `name` from the directory `dir`.
pub open spec fn remove_from(dir: u64, name: Seq<u8>, replies: Seq<ReplyView>) -> Move<()> {
    if replies.len() == 0 {
        Move::Ask(Call::Remove { dir, name })
    } else {
        match replies[0] {
            Reply::Done => Move::Done(Ok(())),
            refused => fail(refused),
        }
    }
}

/// What changing the attributes of the entry at `path` does: it looks the entry up and changes
/// them.
pub open spec fn set_attr_moves(path: Seq<u8>, attr: SetAttr, replies: Seq<ReplyView>) -> Move<()> {
    if replies.len() == 0 {
        Move::Ask(lookup(path))
    } else {
        match replies[0] {
            Reply::Id(id) => set_attr_of(id, attr, replies.skip(1)),
            refused => fail(refused),
        }
    }
}

/// Changing the attributes of the entry `id`.
pub open spec fn set_attr_of(id: u64, attr: SetAttr, replies: Seq<ReplyView>) -> Move<()> {
    if replies.len() == 0 {
        Move::Ask(Call::SetAttr { id, attr })
    } else {
        match replies[0] {
            Reply::Attr(_) => Move::Done(Ok(())),
            refused => fail(refused),
        }
    }
}

/// What a change waits for.
enum Stage {
    /// The directory in which to make the directory `name`.
    DirectoryToMakeIn { name: Vec<u8> },
    /// That the directory has been made.
    Made,
    /// The directory from which to remove the entry `name`.
    DirectoryToRemoveFrom { name: Vec<u8> },
    /// That the entry has been removed.
    Removed,
    /// The entry whose attributes are to change.
    EntryToSet { attr: SetAttr },
    /// That the attributes have been changed.
    AttrSet,
}

/// A change that is being made.
pub struct ChangeRun {
    stage: Stage,
}

/// Starts to make the directory at `path`.
pub(crate) fn create_dir(path: &[u8]) -> (step: Step<ChangeRun, ()>)
    ensures
        leads(step, |replies: Seq<ReplyView>| create_dir_moves(path@, replies)),
{
    let parent = parent_path(path);
    let name = filename_from_path(path);
    let call = resolve_path(parent.as_slice());
    Step::Ask(ChangeRun { stage: Stage::DirectoryToMakeIn { name } }, call)
}

/// Starts to remove the entry at `path`.
pub(crate) fn remove(path: &[u8]) -> (step: Step<ChangeRun, ()>)
    ensures
        leads(step, |replies: Seq<ReplyView>| remove_moves(path@, replies)),
{
    let parent = parent_path(path);
    let name = filename_from_path(path);
    let call = resolve_path(parent.as_slice());
    Step::Ask(ChangeRun { stage: Stage::DirectoryToRemoveFrom { name } }, call)
}

/// Starts to change the attributes of the entry at `path`.
pub(crate) fn set_attr(path: &[u8], attr: SetAttr) -> (step: Step<ChangeRun, ()>)
    ensures
        leads(step, |replies: Seq<ReplyView>| set_attr_moves(path@, attr, replies)),
{
    let call = resolve_path(path);
    Step::Ask(ChangeRun { stage: Stage::EntryToSet { attr } }, call)
}

impl Run for ChangeRun {
    type Output = ();

    closed spec fn ready(&self, reply: ReplyView) -> bool {
        true
    }

    closed spec fn after(&self, replies: Seq<ReplyView>) -> Move<()> {
        match self.stage {
            Stage::DirectoryToMakeIn { name } => match replies[0] {
                Reply::Id(dir) => make_dir_in(dir, name@, replies.skip(1)),
                refused => fail(refused),
            },
            Stage::Made => match replies[0] {
                Reply::Created(_, _) => Move::Done(Ok(())),
                refused => fail(refused),
            },
            Stage::DirectoryToRemoveFrom { name } => match replies[0] {
                Reply::Id(dir) => remove_from(dir, name@, replies.skip(1)),
                refused => fail(refused),
            },
            Stage::Removed => match replies[0] {
                Reply::Done => Move::Done(Ok(())),
                refused => fail(refused),
            },
            Stage::EntryToSet { attr } => match replies[0] {
                Reply::Id(id) => set_attr_of(id, attr, replies.skip(1)),
                refused => fail(refused),
            },
            Stage::AttrSet => match replies[0] {
                Reply::Attr(_) => Move::Done(Ok(())),
                refused => fail(refused),
            },
        }
    }

    fn accepts(&self, reply: &FsReply) -> (yes: bool) {
        true
    }

    fn resume(self, reply: FsReply) -> (step: Step<ChangeRun, ()>) {
        proof {
            lemma_first_and_rest(reply@);
        }
        match (self.stage, reply) {
            (Stage::DirectoryToMakeIn { name }, Reply::Id(dir)) => Step::Ask(
                ChangeRun { stage: Stage::Made },
                Call::MakeDir { dir, name },
            ),
            (Stage::DirectoryToRemoveFrom { name }, Reply::Id(dir)) => Step::Ask(
                ChangeRun { stage: Stage::Removed },
                Call::Remove { dir, name },
            ),
            (Stage::EntryToSet { attr }, Reply::Id(id)) => Step::Ask(
                ChangeRun { stage: Stage::AttrSet },
                Call::SetAttr { id, attr },
            ),
            (Stage::Made, Reply::Created(_, _)) => Step::Done(Ok(())),
            (Stage::Removed, Reply::Done) => Step::Done(Ok(())),
            (Stage::AttrSet, Reply::Attr(_)) => Step::Done(Ok(())),
            (_, reply) => Step::Done(Err(refused(&reply))),
        }
    }
}

/// A directory is made in the directory around it: `name` in `dir`.
pub proof fn law_new_directory_goes_into_its_parent(dir: Seq<u8>, name: Seq<u8>, id: u64)
    requires
        name.len() > 0,
        !name.contains(SLASH),
    ensures
        create_dir_moves(dir + root_path() + name, seq![]) == Move::<()>::Ask(lookup(dir)),
        create_dir_moves(dir + root_path() + name, seq![Reply::Id(id)]) == Move::<()>::Ask(
            Call::MakeDir { dir: id, name },
        ),
{
    law_split_undoes_join(dir, name);
}

/// An entry is removed from the directory around it: `name` from `dir`.
pub proof fn law_entry_is_removed_from_its_parent(dir: Seq<u8>, name: Seq<u8>, id: u64)
    requires
        name.len() > 0,
        !name.contains(SLASH),
    ensures
        remove_moves(dir + root_path() + name, seq![]) == Move::<()>::Ask(lookup(dir)),
        remove_moves(dir + root_path() + name, seq![Reply::Id(id)]) == Move::<()>::Ask(
            Call::Remove { dir: id, name },
        ),
{
    law_split_undoes_join(dir, name);
}

/// These changes succeed where the entry is found and the file tree makes the change.
pub proof fn law_granted_changes_succeed(path: Seq<u8>, attr: SetAttr, replies: Seq<ReplyView>)
    requires
        replies.len() >= 2,
        replies[0] is Id,
    ensures
        replies[1] is Created ==> create_dir_moves(path, replies) == Move::<()>::Done(Ok(())),
        replies[1] is Done ==> remove_moves(path, replies) == Move::<()>::Done(Ok(())),
        replies[1] is Attr ==> set_attr_moves(path, attr, replies) == Move::<()>::Done(Ok(())),
{
}

/// These changes ask for at most two things.
pub proof fn law_changes_end(path: Seq<u8>, attr: SetAttr, replies: Seq<ReplyView>)
    requires
        replies.len() >= 2,
    ensures
        create_dir_moves(path, replies) is Done,
        remove_moves(path, replies) is Done,
        set_attr_moves(path, attr, replies) is Done,
{
}

/// These changes end at the first refusal, with the error of that refusal.
pub proof fn law_refusal_ends_changes(
    path: Seq<u8>,
    attr: SetAttr,
    replies: Seq<ReplyView>,
    status: NfsStatus,
)
    ensures
        create_dir_moves(path, replies) is Ask ==> create_dir_moves(
            path,
            replies.push(Reply::Refused(status)),
        ) == Move::<()>::Done(Err(error_of(status))),
        remove_moves(path, replies) is Ask ==> remove_moves(
            path,
            replies.push(Reply::Refused(status)),
        ) == Move::<()>::Done(Err(error_of(status))),
        set_attr_moves(path, attr, replies) is Ask ==> set_attr_moves(
            path,
            attr,
            replies.push(Reply::Refused(status)),
        ) == Move::<()>::Done(Err(error_of(status))),
{
    let refused = ReplyView::Refused(status);
    lemma_one_more(replies, refused);
    lemma_one_more(replies.skip(1), refused);
}

/// A plain name is made in the root directory.
pub proof fn law_new_directory_of_a_plain_name_goes_into_the_root(name: Seq<u8>, id: u64)
    requires
        !name.contains(SLASH),
    ensures
        create_dir_moves(name, seq![]) == Move::<()>::Ask(Call::RootDir),
        create_dir_moves(name, seq![Reply::Id(id)]) == Move::<()>::Ask(
            Call::MakeDir { dir: id, name },
        ),
{
    law_plain_name_is_in_the_root(name);
    assert(seq![SLASH] =~= root_path());
}

/// A slash at the end of the path makes no difference when an entry is made.
pub proof fn law_new_directory_may_end_in_a_slash(path: Seq<u8>, replies: Seq<ReplyView>)
    ensures
        create_dir_moves(path.push(SLASH), replies) == create_dir_moves(path, replies),
{
    law_trailing_slash_is_ignored(path);
}

/// A plain name is removed from the root directory.
pub proof fn law_entry_of_a_plain_name_is_removed_from_the_root(name: Seq<u8>, id: u64)
    requires
        !name.contains(SLASH),
    ensures
        remove_moves(name, seq![]) == Move::<()>::Ask(Call::RootDir),
        remove_moves(name, seq![Reply::Id(id)]) == Move::<()>::Ask(
            Call::Remove { dir: id, name },
        ),
{
    law_plain_name_is_in_the_root(name);
    assert(seq![SLASH] =~= root_path());
}

/// A slash at the end of the path makes no difference when an entry is removed.
pub proof fn law_removed_path_may_end_in_a_slash(path: Seq<u8>, replies: Seq<ReplyView>)
    ensures
        remove_moves(path.push(SLASH), replies) == remove_moves(path, replies),
{
    law_trailing_slash_is_ignored(path);
}

/// Attributes are set on the entry at the path itself, and on no other, and they are those that
/// were asked for.
pub proof fn law_attributes_are_set_on_the_entry_at_the_path(path: Seq<u8>, attr: SetAttr, id: u64)
    ensures
        path.len() == 0 || path == seq![SLASH] ==> set_attr_moves(path, attr, seq![]) == Move::<
            (),
        >::Ask(Call::RootDir),
        path.len() > 0 && path != seq![SLASH] ==> set_attr_moves(path, attr, seq![]) == Move::<
            (),
        >::Ask(Call::PathToId { path }),
        set_attr_moves(path, attr, seq![Reply::Id(id)]) == Move::<()>::Ask(
            Call::SetAttr { id, attr },
        ),
{
}

/// A change succeeds only where the entry was found and the file tree made the change.
pub proof fn law_changes_succeed_only_when_granted(
    path: Seq<u8>,
    attr: SetAttr,
    replies: Seq<ReplyView>,
)
    ensures
        create_dir_moves(path, replies) == Move::<()>::Done(Ok(())) ==> replies.len() >= 2
            && replies[0] is Id && replies[1] is Created,
        remove_moves(path, replies) == Move::<()>::Done(Ok(())) ==> replies.len() >= 2
            && replies[0] is Id && replies[1] is Done,
        set_attr_moves(path, attr, replies) == Move::<()>::Done(Ok(())) ==> replies.len() >= 2
            && replies[0] is Id && replies[1] is Attr,
{
}

} // verus!
