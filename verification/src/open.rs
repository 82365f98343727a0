//! Opening a file, which may create or empty it.

use vstd::prelude::*;

use crate::attr::FileAttr;
use crate::attr::FileKind;
use crate::attr::SetAttr;
use crate::error::error_of;
use crate::error::FsError;
use crate::error::NfsStatus;
use crate::file::FileView;
use crate::file::MirrorDavFile;
use crate::fs::MirrorDavFS;
use crate::path::copy_bytes;
use crate::path::filename_from_path;
use crate::path::law_plain_name_is_in_the_root;
use crate::path::law_split_undoes_join;
use crate::path::law_trailing_slash_is_ignored;
use crate::path::name_of;
use crate::path::parent_of;
use crate::path::parent_path;
use crate::path::root_path;
use crate::path::SLASH;
use crate::resolve::looked_up;
use crate::resolve::lookup;
use crate::resolve::resolve_path;
use crate::resolve::resolved;
use crate::run::Call;
use crate::run::fail;
use crate::run::FsReply;
use crate::run::leads;
use crate::run::lemma_first_and_rest;
use crate::run::lemma_one_more;
use crate::run::Move;
use crate::run::refused;
use crate::run::Reply;
use crate::run::ReplyView;
use crate::run::Run;
use crate::run::Step;

verus! {

/// How a file is to be opened.
#[derive(Clone, Copy, Debug, PartialEq, Eq, Structural)]
pub struct OpenOptions {
    /// The file will be written.
    pub write: bool,
    /// What the file holds is dropped, if it will be written.
    pub truncate: bool,
    /// A file that does not exist is created.
    pub create: bool,
    /// The file is created, and must not exist.
    pub create_new: bool,
}

/// The change that empties a file.
pub open spec fn emptied() -> SetAttr {
    SetAttr { size: Some(0), ..SetAttr::unchanged() }
}

/// Whether an entry of this kind can be opened: a regular file or a symbolic link.
pub open spec fn can_open(kind: FileKind) -> bool {
    kind == FileKind::Regular || kind == FileKind::Symlink
}

/// What opening the file at `path` of the file tree `tree` does: it looks the path up and goes on
/// from there.
pub open spec fn open_moves<F>(
    tree: F,
    path: Seq<u8>,
    options: OpenOptions,
    replies: Seq<ReplyView>,
) -> Move<FileView<F>> {
    if replies.len() == 0 {
        Move::Ask(lookup(path))
    } else {
        open_found(tree, path, options, looked_up(replies[0]), replies.skip(1))
    }
}

/// Opening, once it is known what is at the path.
pub open spec fn open_found<F>(
    tree: F,
    path: Seq<u8>,
    options: OpenOptions,
    found: Result<Option<u64>, FsError>,
    replies: Seq<ReplyView>,
) -> Move<FileView<F>> {
    match found {
        Err(error) => Move::Done(Err(error)),
        Ok(Some(id)) => if options.create_new {
            Move::Done(Err(FsError::Exists))
        } else {
            open_entry(tree, id, options, replies)
        },
        Ok(None) => if options.create || options.create_new {
            open_new(tree, path, options, replies)
        } else {
            Move::Done(Err(FsError::NotFound))
        },
    }
}

/// Opening a file that does not exist yet: it is created in its directory.
pub open spec fn open_new<F>(
    tree: F,
    path: Seq<u8>,
    options: OpenOptions,
    replies: Seq<ReplyView>,
) -> Move<FileView<F>> {
    if replies.len() == 0 {
        Move::Ask(lookup(parent_of(path)))
    } else {
        match replies[0] {
            Reply::Id(dir) => open_new_in(tree, dir, name_of(path), options, replies.skip(1)),
            refused => fail(refused),
        }
    }
}

/// Opening a file that is created as `name` in the directory `dir`.
pub open spec fn open_new_in<F>(
    tree: F,
    dir: u64,
    name: Seq<u8>,
    options: OpenOptions,
    replies: Seq<ReplyView>,
) -> Move<FileView<F>> {
    if replies.len() == 0 {
        Move::Ask(Call::Create { dir, name, attr: SetAttr::unchanged() })
    } else {
        match replies[0] {
            Reply::Created(id, _) => open_entry(tree, id, options, replies.skip(1)),
            refused => fail(refused),
        }
    }
}

/// Opening the entry `id`: what it is decides whether it can be opened.
pub open spec fn open_entry<F>(
    tree: F,
    id: u64,
    options: OpenOptions,
    replies: Seq<ReplyView>,
) -> Move<FileView<F>> {
    if replies.len() == 0 {
        Move::Ask(Call::GetAttr { id })
    } else {
        match replies[0] {
            Reply::Attr(attr) => if !can_open(attr.kind) {
                Move::Done(Err(FsError::Forbidden))
            } else if options.truncate && options.write {
                open_emptied(tree, id, replies.skip(1))
            } else {
                Move::Done(Ok(FileView::at_start(tree, id)))
            },
            refused => fail(refused),
        }
    }
}

/// Opening the file `id`, which is emptied first.
pub open spec fn open_emptied<F>(tree: F, id: u64, replies: Seq<ReplyView>) -> Move<FileView<F>> {
    if replies.len() == 0 {
        Move::Ask(Call::SetAttr { id, attr: emptied() })
    } else {
        match replies[0] {
            Reply::Attr(_) => Move::Done(Ok(FileView::at_start(tree, id))),
            refused => fail(refused),
        }
    }
}

/// What opening waits for.
enum Stage {
    /// What is at the path.
    Found { path: Vec<u8>, options: OpenOptions },
    /// The directory for a new file.
    Directory { name: Vec<u8>, options: OpenOptions },
    /// The new file.
    Created { options: OpenOptions },
    /// What the entry is.
    Inspected { id: u64, options: OpenOptions },
    /// That the file has been emptied.
    Emptied { id: u64 },
}

/// A file that is being opened.
pub struct OpenRun<F> {
    fs: MirrorDavFS<F>,
    stage: Stage,
}

/// Starts to open the file at `path` of `fs`.
pub(crate) fn open<F>(fs: MirrorDavFS<F>, path: &[u8], options: OpenOptions) -> (step: Step<
    OpenRun<F>,
    MirrorDavFile<F>,
>)
    ensures
        leads(step, |replies: Seq<ReplyView>| open_moves(fs@, path@, options, replies)),
{
    let call = resolve_path(path);
    let run = OpenRun { fs, stage: Stage::Found { path: copy_bytes(path), options } };
    Step::Ask(run, call)
}

impl<F> Run for OpenRun<F> {
    type Output = MirrorDavFile<F>;

    closed spec fn ready(&self, reply: ReplyView) -> bool {
        true
    }

    closed spec fn after(&self, replies: Seq<ReplyView>) -> Move<FileView<F>> {
        let tree = self.fs@;
        match self.stage {
            Stage::Found { path, options } => open_found(
                tree,
                path@,
                options,
                looked_up(replies[0]),
                replies.skip(1),
            ),
            Stage::Directory { name, options } => match replies[0] {
                Reply::Id(dir) => open_new_in(tree, dir, name@, options, replies.skip(1)),
                refused => fail(refused),
            },
            Stage::Created { options } => match replies[0] {
                Reply::Created(id, _) => open_entry(tree, id, options, replies.skip(1)),
                refused => fail(refused),
            },
            Stage::Inspected { id, options } => open_entry(tree, id, options, replies),
            Stage::Emptied { id } => open_emptied(tree, id, replies),
        }
    }

    fn accepts(&self, reply: &FsReply) -> (yes: bool) {
        true
    }

    fn resume(self, reply: FsReply) -> (step: Step<OpenRun<F>, MirrorDavFile<F>>) {
        proof {
            lemma_first_and_rest(reply@);
        }
        let fs = self.fs;
        match self.stage {
            Stage::Found { path, options } => match resolved(&reply) {
                Err(error) => Step::Done(Err(error)),
                Ok(Some(id)) => {
                    if options.create_new {
                        Step::Done(Err(FsError::Exists))
                    } else {
                        Step::Ask(
                            OpenRun { fs, stage: Stage::Inspected { id, options } },
                            Call::GetAttr { id },
                        )
                    }
                },
                Ok(None) => {
                    if options.create || options.create_new {
                        let parent = parent_path(path.as_slice());
                        let name = filename_from_path(path.as_slice());
                        let call = resolve_path(parent.as_slice());
                        Step::Ask(OpenRun { fs, stage: Stage::Directory { name, options } }, call)
                    } else {
                        Step::Done(Err(FsError::NotFound))
                    }
                },
            },
            Stage::Directory { name, options } => match reply {
                Reply::Id(dir) => {
                    let call = Call::Create { dir, name, attr: SetAttr::default() };
                    Step::Ask(OpenRun { fs, stage: Stage::Created { options } }, call)
                },
                reply => Step::Done(Err(refused(&reply))),
            },
            Stage::Created { options } => match reply {
                Reply::Created(id, _) => Step::Ask(
                    OpenRun { fs, stage: Stage::Inspected { id, options } },
                    Call::GetAttr { id },
                ),
                reply => Step::Done(Err(refused(&reply))),
            },
            Stage::Inspected { id, options } => match reply {
                Reply::Attr(attr) => {
                    if !matches!(attr.kind, FileKind::Regular | FileKind::Symlink) {
                        Step::Done(Err(FsError::Forbidden))
                    } else if options.truncate && options.write {
                        let mut attr = SetAttr::default();
                        attr.size = Some(0);
                        Step::Ask(
                            OpenRun { fs, stage: Stage::Emptied { id } },
                            Call::SetAttr { id, attr },
                        )
                    } else {
                        Step::Done(Ok(MirrorDavFile { fs, id, offset: 0 }))
                    }
                },
                reply => Step::Done(Err(refused(&reply))),
            },
            Stage::Emptied { id } => match reply {
                Reply::Attr(_) => Step::Done(Ok(MirrorDavFile { fs, id, offset: 0 })),
                reply => Step::Done(Err(refused(&reply))),
            },
        }
    }
}

/// A file that must not exist is not opened where something is at the path, and nothing is
/// changed.
pub proof fn law_existing_entry_is_not_created_anew<F>(
    tree: F,
    path: Seq<u8>,
    options: OpenOptions,
    replies: Seq<ReplyView>,
)
    requires
        options.create_new,
        replies.len() > 0,
        replies[0] is Id,
    ensures
        open_moves(tree, path, options, replies) == Move::<FileView<F>>::Done(Err(FsError::Exists)),
{
}

/// A file that is not to be created is not found where nothing is at the path.
pub proof fn law_missing_file_is_not_found<F>(
    tree: F,
    path: Seq<u8>,
    options: OpenOptions,
    replies: Seq<ReplyView>,
)
    requires
        !options.create,
        !options.create_new,
        replies.len() > 0,
        replies[0] == ReplyView::Refused(NfsStatus::NoEnt),
    ensures
        open_moves(tree, path, options, replies) == Move::<FileView<F>>::Done(Err(FsError::NotFound)),
{
}

/// Only a regular file or a symbolic link is opened.
pub proof fn law_only_files_and_links_are_opened<F>(
    tree: F,
    path: Seq<u8>,
    options: OpenOptions,
    id: u64,
    attr: FileAttr,
    replies: Seq<ReplyView>,
)
    requires
        !options.create_new,
        !can_open(attr.kind),
        replies.len() >= 2,
        replies[0] == ReplyView::Id(id),
        replies[1] == ReplyView::Attr(attr),
    ensures
        open_moves(tree, path, options, replies) == Move::<FileView<F>>::Done(Err(FsError::Forbidden)),
{
}

/// Whether `id` is the entry that was found at the path or, where nothing was found, the one that
/// was created.
pub open spec fn found_or_created(id: u64, replies: Seq<ReplyView>) -> bool {
    if replies[0] is Id {
        replies[0] == ReplyView::Id(id)
    } else {
        replies[2] matches Reply::Created(created, _) && created == id
    }
}

/// Opening changes nothing but what its options allow: it creates the file of that name where
/// nothing was found at the path, and it empties what it has seen to be a file or a link.
pub proof fn law_open_changes_only_what_it_may<F>(
    tree: F,
    path: Seq<u8>,
    options: OpenOptions,
    replies: Seq<ReplyView>,
)
    ensures
        open_moves(tree, path, options, replies) matches Move::Ask(call) ==> match call {
            Call::RootDir | Call::PathToId { .. } => true,
            Call::GetAttr { id } => found_or_created(id, replies),
            Call::Create { dir, name, attr } => {
                &&& options.create || options.create_new
                &&& looked_up(replies[0]) == Ok::<Option<u64>, FsError>(None)
                &&& replies.last() == ReplyView::Id(dir)
                &&& name == name_of(path)
                &&& attr == SetAttr::unchanged()
            },
            Call::SetAttr { id, attr } => {
                &&& options.truncate && options.write
                &&& replies.last() matches Reply::Attr(seen) && can_open(seen.kind)
                &&& found_or_created(id, replies)
                &&& attr == emptied()
            },
            _ => false,
        },
{
}

/// A file that has been opened is on the file tree on which it was asked for and at its start, and
/// it is the one that was found at the path or the one that was created there.
pub proof fn law_opened_file_is_at_its_start<F>(
    tree: F,
    path: Seq<u8>,
    options: OpenOptions,
    replies: Seq<ReplyView>,
)
    ensures
        open_moves(tree, path, options, replies) matches Move::Done(Ok(file)) ==> {
            &&& file.tree == tree
            &&& file.offset == 0
            &&& found_or_created(file.id, replies)
            &&& options.create_new ==> !(replies[0] is Id)
        },
{
}

/// A file or link at the path is opened; where it is to be emptied, once that is done.
pub proof fn law_existing_file_is_opened<F>(
    tree: F,
    path: Seq<u8>,
    options: OpenOptions,
    id: u64,
    attr: FileAttr,
    replies: Seq<ReplyView>,
)
    requires
        !options.create_new,
        can_open(attr.kind),
        replies.len() >= 2,
        replies[0] == ReplyView::Id(id),
        replies[1] == ReplyView::Attr(attr),
        options.truncate && options.write ==> replies.len() >= 3 && replies[2] is Attr,
    ensures
        open_moves(tree, path, options, replies) == Move::Done(
            Ok::<FileView<F>, FsError>(FileView::at_start(tree, id)),
        ),
{
}

/// A file that is to be created and does not exist is created in its directory and opened.
pub proof fn law_new_file_is_opened<F>(
    tree: F,
    path: Seq<u8>,
    options: OpenOptions,
    id: u64,
    created: FileAttr,
    attr: FileAttr,
    replies: Seq<ReplyView>,
)
    requires
        options.create || options.create_new,
        can_open(attr.kind),
        replies.len() >= 4,
        replies[0] == ReplyView::Refused(NfsStatus::NoEnt),
        replies[1] is Id,
        replies[2] == ReplyView::Created(id, created),
        replies[3] == ReplyView::Attr(attr),
        options.truncate && options.write ==> replies.len() >= 5 && replies[4] is Attr,
    ensures
        open_moves(tree, path, options, replies) == Move::Done(
            Ok::<FileView<F>, FsError>(FileView::at_start(tree, id)),
        ),
{
}

/// Opening asks for at most five things.
pub proof fn law_open_ends<F>(
    tree: F,
    path: Seq<u8>,
    options: OpenOptions,
    replies: Seq<ReplyView>,
)
    requires
        replies.len() >= 5,
    ensures
        open_moves(tree, path, options, replies) is Done,
{
}

/// Opening ends at the first refusal, with the error of that refusal. The one refusal that does
/// not end it says that nothing is at the path.
pub proof fn law_refusal_ends_open<F>(
    tree: F,
    path: Seq<u8>,
    options: OpenOptions,
    replies: Seq<ReplyView>,
    status: NfsStatus,
)
    requires
        open_moves(tree, path, options, replies) is Ask,
        replies.len() > 0 || status != NfsStatus::NoEnt,
    ensures
        open_moves(tree, path, options, replies.push(Reply::Refused(status))) == Move::<
            FileView<F>,
        >::Done(Err(error_of(status))),
{
    let refused = ReplyView::Refused(status);
    lemma_one_more(replies, refused);
    lemma_one_more(replies.skip(1), refused);
    lemma_one_more(replies.skip(1).skip(1), refused);
    lemma_one_more(replies.skip(1).skip(1).skip(1), refused);
    lemma_one_more(replies.skip(1).skip(1).skip(1).skip(1), refused);
}

/// Opening asks for the entry at the path itself, and then what that entry is.
pub proof fn law_open_looks_at_the_entry_at_the_path<F>(
    tree: F,
    path: Seq<u8>,
    options: OpenOptions,
    id: u64,
)
    ensures
        open_moves(tree, path, options, seq![]) == Move::<FileView<F>>::Ask(lookup(path)),
        !options.create_new ==> open_moves(tree, path, options, seq![Reply::Id(id)]) == Move::<
            FileView<F>,
        >::Ask(Call::GetAttr { id }),
{
}

/// What was found to be a regular file or a link is opened at its start, once it has been emptied
/// where it is to be truncated and written, whatever its attributes are. Anything else is not
/// opened.
pub proof fn law_what_the_entry_is_decides<F>(
    tree: F,
    path: Seq<u8>,
    options: OpenOptions,
    id: u64,
    attr: FileAttr,
    done: FileAttr,
)
    requires
        !options.create_new,
    ensures
        attr.kind != FileKind::Regular && attr.kind != FileKind::Symlink ==> open_moves(
            tree,
            path,
            options,
            seq![Reply::Id(id), Reply::Attr(attr)],
        ) == Move::<FileView<F>>::Done(Err(FsError::Forbidden)),
        attr.kind == FileKind::Regular || attr.kind == FileKind::Symlink ==> open_moves(
            tree,
            path,
            options,
            seq![Reply::Id(id), Reply::Attr(attr)],
        ) == if options.truncate && options.write {
            Move::Ask(
                Call::SetAttr { id, attr: SetAttr { size: Some(0), atime: None, mtime: None } },
            )
        } else {
            Move::Done(Ok(FileView { tree, id, offset: 0 }))
        },
        (attr.kind == FileKind::Regular || attr.kind == FileKind::Symlink) && options.truncate
            && options.write ==> open_moves(
            tree,
            path,
            options,
            seq![Reply::Id(id), Reply::Attr(attr), Reply::Attr(done)],
        ) == Move::Done(Ok::<FileView<F>, FsError>(FileView { tree, id, offset: 0 })),
{
}

/// A file that does not exist and is to be created is created where it was asked for: as `name` in
/// the directory `dir`.
pub proof fn law_new_file_goes_where_it_was_asked_to_go<F>(
    tree: F,
    dir: Seq<u8>,
    name: Seq<u8>,
    options: OpenOptions,
    id: u64,
)
    requires
        options.create || options.create_new,
        name.len() > 0,
        !name.contains(SLASH),
    ensures
        open_moves(
            tree,
            dir + seq![SLASH] + name,
            options,
            seq![Reply::Refused(NfsStatus::NoEnt)],
        ) == Move::<FileView<F>>::Ask(lookup(dir)),
        open_moves(
            tree,
            dir + seq![SLASH] + name,
            options,
            seq![Reply::Refused(NfsStatus::NoEnt), Reply::Id(id)],
        ) == Move::<FileView<F>>::Ask(
            Call::Create {
                dir: id,
                name,
                attr: SetAttr { size: None, atime: None, mtime: None },
            },
        ),
{
    assert(seq![SLASH] =~= root_path());
    law_split_undoes_join(dir, name);
}

/// A new file of a plain name goes into the root directory.
pub proof fn law_new_file_of_a_plain_name_goes_into_the_root<F>(
    tree: F,
    name: Seq<u8>,
    options: OpenOptions,
    id: u64,
)
    requires
        options.create || options.create_new,
        !name.contains(SLASH),
    ensures
        open_moves(tree, name, options, seq![Reply::Refused(NfsStatus::NoEnt)]) == Move::<
            FileView<F>,
        >::Ask(Call::RootDir),
        open_moves(tree, name, options, seq![Reply::Refused(NfsStatus::NoEnt), Reply::Id(id)])
            == Move::<FileView<F>>::Ask(
            Call::Create {
                dir: id,
                name,
                attr: SetAttr { size: None, atime: None, mtime: None },
            },
        ),
{
    assert(seq![SLASH] =~= root_path());
    law_plain_name_is_in_the_root(name);
}

/// Once it has been looked up, a slash at the end of the path makes no difference.
pub proof fn law_opened_path_may_end_in_a_slash<F>(
    tree: F,
    path: Seq<u8>,
    options: OpenOptions,
    replies: Seq<ReplyView>,
)
    requires
        replies.len() > 0,
    ensures
        open_moves(tree, path.push(SLASH), options, replies) == open_moves(
            tree,
            path,
            options,
            replies,
        ),
{
    law_trailing_slash_is_ignored(path);
}

/// From the moment it exists, a file that was created is opened like one that was there before.
pub proof fn law_created_file_is_opened_like_any_other<F>(
    tree: F,
    path: Seq<u8>,
    options: OpenOptions,
    dir: u64,
    id: u64,
    created: FileAttr,
    more: Seq<ReplyView>,
)
    requires
        options.create || options.create_new,
    ensures
        open_moves(
            tree,
            path,
            options,
            seq![Reply::Refused(NfsStatus::NoEnt), Reply::Id(dir), Reply::Created(id, created)]
                + more,
        ) == open_moves(
            tree,
            path,
            OpenOptions { create: false, create_new: false, ..options },
            seq![Reply::Id(id)] + more,
        ),
{
    let had = seq![
        ReplyView::Refused(NfsStatus::NoEnt),
        Reply::Id(dir),
        Reply::Created(id, created),
    ];
    assert((had + more).skip(1).skip(1).skip(1) =~= more);
    assert((had + more).skip(1)[0] == had[1]);
    assert((had + more).skip(1).skip(1)[0] == had[2]);
    assert((seq![ReplyView::Id(id)] + more).skip(1) =~= more);
}

/// A file that has been opened to be truncated and written has been emptied: the file tree was
/// asked to set its size to 0, and did so.
pub proof fn law_truncated_file_has_been_emptied<F>(
    tree: F,
    path: Seq<u8>,
    options: OpenOptions,
    replies: Seq<ReplyView>,
)
    requires
        options.truncate,
        options.write,
    ensures
        open_moves(tree, path, options, replies) matches Move::Done(Ok(file)) ==> exists|k: int|
            0 <= k < replies.len() && #[trigger] open_moves(tree, path, options, replies.take(k))
                == Move::<FileView<F>>::Ask(
                Call::SetAttr {
                    id: file.id,
                    attr: SetAttr { size: Some(0), atime: None, mtime: None },
                },
            ) && replies[k] is Attr,
{
    if let Move::Done(Ok(file)) = open_moves(tree, path, options, replies) {
        let k: int = if replies[0] is Id {
            2
        } else {
            4
        };
        let had = replies.take(k);
        assert(had[0] == replies[0]);
        assert(had.skip(1)[0] == replies[1]);
        if k == 2 {
            assert(had.skip(1).skip(1).len() == 0);
        } else {
            assert(had.skip(1).skip(1)[0] == replies[2]);
            assert(had.skip(1).skip(1).skip(1)[0] == replies[3]);
            assert(had.skip(1).skip(1).skip(1).skip(1).len() == 0);
        }
        assert(open_moves(tree, path, options, had) == Move::<FileView<F>>::Ask(
            Call::SetAttr {
                id: file.id,
                attr: SetAttr { size: Some(0), atime: None, mtime: None },
            },
        ));
    }
}

/// What has been opened was seen to be a regular file or a link.
pub proof fn law_opened_entry_was_looked_at<F>(
    tree: F,
    path: Seq<u8>,
    options: OpenOptions,
    replies: Seq<ReplyView>,
)
    requires
        open_moves(tree, path, options, replies) matches Move::Done(Ok(_)),
    ensures
        ({
            let seen = if replies[0] is Id {
                replies[1]
            } else {
                replies[3]
            };
            &&& seen matches Reply::Attr(attr)
            &&& attr.kind == FileKind::Regular || attr.kind == FileKind::Symlink
        }),
        !(replies[0] is Id) ==> replies[0] == ReplyView::Refused(NfsStatus::NoEnt)
            && (options.create || options.create_new),
{
}

} // verus!
