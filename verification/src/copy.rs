//! Copying a file, piece by piece.

use vstd::prelude::*;

use crate::attr::FileAttr;
use crate::attr::SetAttr;
use crate::buffer::buffer_from;
use crate::contents::all_read_from;
use crate::contents::left_by;
use crate::contents::lemma_left_alone;
use crate::contents::overwritten;
use crate::contents::serves;
use crate::error::error_of;
use crate::error::NfsStatus;
use crate::path::copy_bytes;
use crate::path::filename_from_path;
use crate::path::law_plain_name_is_in_the_root;
use crate::path::law_split_undoes_join;
use crate::path::law_trailing_slash_is_ignored;
use crate::path::name_of;
use crate::path::parent_of;
use crate::path::parent_path;
use crate::path::root_path;
use crate::path::SLASH;
use crate::resolve::lookup;
use crate::resolve::resolve_path;
use crate::run::all_granted;
use crate::run::Call;
use crate::run::fail;
use crate::run::FsReply;
use crate::run::leads;
use crate::run::lemma_first_and_rest;
use crate::run::lemma_one_more;
use crate::run::Move;
use crate::run::refused;
use crate::run::Reply;
use crate::run::ReplyView;
use crate::run::Run;
use crate::run::Step;

verus! {

/// The most bytes that are copied at a time.
pub const CHUNK: u32 = 1_048_576;

/// What copying the file at `from` to `to` does: it looks up the file and the directory of the
/// copy, creates the copy and transfers the contents.
pub open spec fn copy_moves(from: Seq<u8>, to: Seq<u8>, replies: Seq<ReplyView>) -> Move<()> {
    if replies.len() == 0 {
        Move::Ask(lookup(from))
    } else {
        match replies[0] {
            Reply::Id(source) => copy_from(source, to, replies.skip(1)),
            refused => fail(refused),
        }
    }
}

/// Copying the file `source`.
pub open spec fn copy_from(source: u64, to: Seq<u8>, replies: Seq<ReplyView>) -> Move<()> {
    if replies.len() == 0 {
        Move::Ask(lookup(parent_of(to)))
    } else {
        match replies[0] {
            Reply::Id(dir) => copy_into(source, dir, name_of(to), replies.skip(1)),
            refused => fail(refused),
        }
    }
}

/// Copying the file `source` to a new file `name` in the directory `dir`.
pub open spec fn copy_into(
    source: u64,
    dir: u64,
    name: Seq<u8>,
    replies: Seq<ReplyView>,
) -> Move<()> {
    if replies.len() == 0 {
        Move::Ask(Call::Create { dir, name, attr: SetAttr::unchanged() })
    } else {
        match replies[0] {
            Reply::Created(copy, _) => transfer(source, copy, 0, replies.skip(1)),
            refused => fail(refused),
        }
    }
}

/// Copying what `source` holds from `offset` on to the same place in `copy`: a piece is read and
/// written, and so on from behind it, up to the piece that reaches the end or is empty.
pub open spec fn transfer(
    source: u64,
    copy: u64,
    offset: u64,
    replies: Seq<ReplyView>,
) -> Move<()>
    decreases replies.len(), 1nat,
{
    if replies.len() == 0 {
        Move::Ask(Call::Read { id: source, offset, count: CHUNK })
    } else {
        match replies[0] {
            Reply::Data(data, eof) => if data.len() == 0 {
                Move::Done(Ok(()))
            } else {
                transfer_piece(source, copy, offset, data, eof, replies.skip(1))
            },
            refused => fail(refused),
        }
    }
}

/// Copying from `offset` on, once the piece `data` there has been read.
pub open spec fn transfer_piece(
    source: u64,
    copy: u64,
    offset: u64,
    data: Seq<u8>,
    eof: bool,
    replies: Seq<ReplyView>,
) -> Move<()>
    decreases replies.len(), 2nat,
{
    if replies.len() == 0 {
        Move::Ask(Call::Write { id: copy, offset, data })
    } else {
        match replies[0] {
            Reply::Attr(_) => if eof {
                Move::Done(Ok(()))
            } else {
                transfer(source, copy, (offset + data.len()) as u64, replies.skip(1))
            },
            refused => fail(refused),
        }
    }
}

/// What copying waits for.
enum Stage {
    /// The file to copy.
    Source { to: Vec<u8> },
    /// The directory for the copy.
    Directory { source: u64, name: Vec<u8> },
    /// The copy.
    Created { source: u64 },
    /// The next piece.
    Read { source: u64, copy: u64, offset: u64 },
    /// That a piece of `len` bytes has been written.
    Written { source: u64, copy: u64, offset: u64, len: u64, eof: bool },
}

/// A file that is being copied.
pub struct CopyRun {
    stage: Stage,
}

/// Starts to copy the file at `from` to `to`.
pub(crate) fn copy(from: &[u8], to: &[u8]) -> (step: Step<CopyRun, ()>)
    ensures
        leads(step, |replies: Seq<ReplyView>| copy_moves(from@, to@, replies)),
{
    let call = resolve_path(from);
    let run = CopyRun { stage: Stage::Source { to: copy_bytes(to) } };
    Step::Ask(run, call)
}

impl Run for CopyRun {
    type Output = ();

    closed spec fn ready(&self, reply: ReplyView) -> bool {
        match self.stage {
            Stage::Written { source, copy, offset, len, eof } => reply is Attr && !eof ==> offset
                + len <= u64::MAX,
            _ => true,
        }
    }

    closed spec fn after(&self, replies: Seq<ReplyView>) -> Move<()> {
        match self.stage {
            Stage::Source { to } => match replies[0] {
                Reply::Id(source) => copy_from(source, to@, replies.skip(1)),
                refused => fail(refused),
            },
            Stage::Directory { source, name } => match replies[0] {
                Reply::Id(dir) => copy_into(source, dir, name@, replies.skip(1)),
                refused => fail(refused),
            },
            Stage::Created { source } => match replies[0] {
                Reply::Created(copy, _) => transfer(source, copy, 0, replies.skip(1)),
                refused => fail(refused),
            },
            Stage::Read { source, copy, offset } => transfer(source, copy, offset, replies),
            Stage::Written { source, copy, offset, len, eof } => match replies[0] {
                Reply::Attr(_) => if eof {
                    Move::Done(Ok(()))
                } else {
                    transfer(source, copy, (offset + len) as u64, replies.skip(1))
                },
                refused => fail(refused),
            },
        }
    }

    fn accepts(&self, reply: &FsReply) -> (yes: bool) {
        match &self.stage {
            Stage::Written { offset, len, eof, .. } => {
                !matches!(reply, Reply::Attr(_)) || *eof || *len <= u64::MAX - *offset
            },
            _ => true,
        }
    }

    fn resume(self, reply: FsReply) -> (step: Step<CopyRun, ()>) {
        proof {
            lemma_first_and_rest(reply@);
        }
        match self.stage {
            Stage::Source { to } => match reply {
                Reply::Id(source) => {
                    let parent = parent_path(to.as_slice());
                    let name = filename_from_path(to.as_slice());
                    let call = resolve_path(parent.as_slice());
                    Step::Ask(CopyRun { stage: Stage::Directory { source, name } }, call)
                },
                reply => Step::Done(Err(refused(&reply))),
            },
            Stage::Directory { source, name } => match reply {
                Reply::Id(dir) => {
                    let call = Call::Create { dir, name, attr: SetAttr::default() };
                    Step::Ask(CopyRun { stage: Stage::Created { source } }, call)
                },
                reply => Step::Done(Err(refused(&reply))),
            },
            Stage::Created { source } => match reply {
                Reply::Created(copy, _) => {
                    let call = Call::Read { id: source, offset: 0, count: CHUNK };
                    Step::Ask(CopyRun { stage: Stage::Read { source, copy, offset: 0 } }, call)
                },
                reply => Step::Done(Err(refused(&reply))),
            },
            Stage::Read { source, copy, offset } => match reply {
                Reply::Data(data, eof) => {
                    if data.is_empty() {
                        Step::Done(Ok(()))
                    } else {
                        let len: u64 = data.len() as u64;
                        let call = Call::Write { id: copy, offset, data: buffer_from(data) };
                        let stage = Stage::Written { source, copy, offset, len, eof };
                        Step::Ask(CopyRun { stage }, call)
                    }
                },
                reply => Step::Done(Err(refused(&reply))),
            },
            Stage::Written { source, copy, offset, len, eof } => match reply {
                Reply::Attr(_) => {
                    if eof {
                        Step::Done(Ok(()))
                    } else {
                        let offset: u64 = offset + len;
                        let call = Call::Read { id: source, offset, count: CHUNK };
                        Step::Ask(CopyRun { stage: Stage::Read { source, copy, offset } }, call)
                    }
                },
                reply => Step::Done(Err(refused(&reply))),
            },
        }
    }
}

/// The part of a copy from `offset` on, where everything before it has been copied already.
proof fn lemma_transfer(
    moves: spec_fn(Seq<ReplyView>) -> Move<()>,
    source: u64,
    copy: u64,
    offset: u64,
    file: Seq<u8>,
    old_copy: Seq<u8>,
    had: Seq<ReplyView>,
    replies: Seq<ReplyView>,
)
    requires
        forall|tail: Seq<ReplyView>| #[trigger] moves(had + tail) == transfer(
            source,
            copy,
            offset,
            tail,
        ),
        offset <= file.len() <= u64::MAX,
        transfer(source, copy, offset, replies) == Move::<()>::Done(Ok(())),
        all_read_from(moves, source, file, had + replies),
    ensures
        left_by(
            moves,
            copy,
            overwritten(old_copy, 0, file.take(offset as int)),
            had,
            replies,
        ) == overwritten(old_copy, 0, file),
    decreases replies.len(),
{
    let all = had + replies;
    let held = overwritten(old_copy, 0, file.take(offset as int));
    let whole = overwritten(old_copy, 0, file);
    let none = Seq::<ReplyView>::empty();
    assert(had + none =~= had);
    assert(moves(had + none) == transfer(source, copy, offset, none));
    assert(replies.len() > 0);
    assert(all.take(had.len() as int) =~= had);
    assert(all[had.len() as int] == replies[0]);
    let (data, eof) = match replies[0] {
        Reply::Data(data, eof) => (data, eof),
        _ => arbitrary(),
    };
    assert(replies[0] == ReplyView::Data(data, eof));
    assert(serves(file, offset as nat, CHUNK as nat, data, eof));
    let had1 = had.push(replies[0]);
    let rest1 = replies.skip(1);
    assert(left_by(moves, copy, held, had, replies) == left_by(moves, copy, held, had1, rest1));
    lemma_first_and_rest(replies[0]);
    if data.len() == 0 {
        assert(held =~= whole);
        assert forall|tail: Seq<ReplyView>| #[trigger] moves(had1 + tail) is Done by {
            assert(had1 + tail =~= had + (seq![replies[0]] + tail));
            assert(moves(had + (seq![replies[0]] + tail)) is Done);
        }
        lemma_left_alone(moves, copy, held, had1, rest1);
    } else {
        assert forall|tail: Seq<ReplyView>| #[trigger] moves(had1 + tail) == transfer_piece(
            source,
            copy,
            offset,
            data,
            eof,
            tail,
        ) by {
            assert(had1 + tail =~= had + (seq![replies[0]] + tail));
            assert(moves(had + (seq![replies[0]] + tail)) == transfer(
                source,
                copy,
                offset,
                seq![replies[0]] + tail,
            ));
        }
        assert(had1 + none =~= had1);
        assert(moves(had1 + none) == Move::<()>::Ask(Call::Write { id: copy, offset, data }));
        assert(rest1.len() > 0);
        assert(rest1[0] is Attr);
        lemma_first_and_rest(rest1[0]);
        let end = offset + data.len();
        let more = overwritten(held, offset as nat, data);
        assert(more =~= overwritten(old_copy, 0, file.take(end)));
        let had2 = had1.push(rest1[0]);
        let rest2 = rest1.skip(1);
        assert(left_by(moves, copy, held, had1, rest1) == left_by(moves, copy, more, had2, rest2));
        if eof {
            assert(more =~= whole);
            assert forall|tail: Seq<ReplyView>| #[trigger] moves(had2 + tail) is Done by {
                assert(had2 + tail =~= had1 + (seq![rest1[0]] + tail));
                assert(moves(had1 + (seq![rest1[0]] + tail)) is Done);
            }
            lemma_left_alone(moves, copy, more, had2, rest2);
        } else {
            assert forall|tail: Seq<ReplyView>| #[trigger] moves(had2 + tail) == transfer(
                source,
                copy,
                end as u64,
                tail,
            ) by {
                assert(had2 + tail =~= had1 + (seq![rest1[0]] + tail));
                assert(moves(had1 + (seq![rest1[0]] + tail)) == transfer_piece(
                    source,
                    copy,
                    offset,
                    data,
                    eof,
                    seq![rest1[0]] + tail,
                ));
            }
            assert(had2 + rest2 =~= all);
            lemma_transfer(moves, source, copy, end as u64, file, old_copy, had2, rest2);
        }
    }
}

/// A copy that succeeds holds what the file holds: for whatever pieces the file is read in, what
/// the created file held at first has been overwritten from its start with all of the file. Where
/// it was empty at first, it holds exactly that.
pub proof fn law_copy_holds_what_the_file_holds(
    from: Seq<u8>,
    to: Seq<u8>,
    source: u64,
    copy: u64,
    file: Seq<u8>,
    old_copy: Seq<u8>,
    replies: Seq<ReplyView>,
)
    requires
        copy_moves(from, to, replies) == Move::<()>::Done(Ok(())),
        replies[0] == ReplyView::Id(source),
        replies[2] matches Reply::Created(id, _) && id == copy,
        file.len() <= u64::MAX,
        all_read_from(|h: Seq<ReplyView>| copy_moves(from, to, h), source, file, replies),
    ensures
        left_by(
            |h: Seq<ReplyView>| copy_moves(from, to, h),
            copy,
            old_copy,
            Seq::empty(),
            replies,
        ) == overwritten(old_copy, 0, file),
        old_copy.len() == 0 ==> overwritten(old_copy, 0, file) == file,
{
    let moves = |h: Seq<ReplyView>| copy_moves(from, to, h);
    let none = Seq::<ReplyView>::empty();
    assert(replies.len() > 0);
    assert(replies.skip(1).len() > 0);
    assert(replies.skip(1)[0] is Id);
    assert(replies.skip(1).skip(1).len() > 0);
    let had = seq![replies[0], replies[1], replies[2]];
    let rest = replies.skip(3);
    assert(had + rest =~= replies);
    assert forall|tail: Seq<ReplyView>| #[trigger] moves(had + tail) == transfer(
        source,
        copy,
        0,
        tail,
    ) by {
        assert((had + tail).skip(1).skip(1).skip(1) =~= tail);
    }
    assert(moves(had + rest) == transfer(source, copy, 0, rest));
    lemma_transfer(moves, source, copy, 0, file, old_copy, had, rest);
    assert(overwritten(old_copy, 0, file.take(0)) =~= old_copy);
    if old_copy.len() == 0 {
        assert(overwritten(old_copy, 0, file) =~= file);
    }
    let had1 = none.push(replies[0]);
    let had2 = had1.push(replies[1]);
    assert(had2.push(replies[2]) =~= had);
    assert(replies.skip(1).skip(1) =~= replies.skip(2));
    assert(replies.skip(2).skip(1) =~= rest);
    assert(moves(none) == Move::<()>::Ask(lookup(from)));
    assert(moves(had1) == Move::<()>::Ask(lookup(parent_of(to))));
    assert(moves(had2) is Ask && !(moves(had2)->Ask_0 is Write)) by {
        assert(had2.skip(1).skip(1) =~= none);
    }
    assert(left_by(moves, copy, old_copy, none, replies) == left_by(
        moves,
        copy,
        old_copy,
        had1,
        replies.skip(1),
    ));
    assert(left_by(moves, copy, old_copy, had1, replies.skip(1)) == left_by(
        moves,
        copy,
        old_copy,
        had2,
        replies.skip(2),
    ));
    assert(left_by(moves, copy, old_copy, had2, replies.skip(2)) == left_by(
        moves,
        copy,
        old_copy,
        had,
        rest,
    ));
}

/// The part of a copy from `offset` on succeeds once it has been granted all it asks for.
proof fn lemma_transfer_succeeds(
    moves: spec_fn(Seq<ReplyView>) -> Move<()>,
    source: u64,
    copy: u64,
    offset: u64,
    file: Seq<u8>,
    had: Seq<ReplyView>,
    replies: Seq<ReplyView>,
)
    requires
        forall|tail: Seq<ReplyView>| #[trigger] moves(had + tail) == transfer(
            source,
            copy,
            offset,
            tail,
        ),
        offset <= file.len() <= u64::MAX,
        all_read_from(moves, source, file, had + replies),
        all_granted(moves, had + replies),
        replies.len() > 2 * (file.len() - offset),
    ensures
        transfer(source, copy, offset, replies) == Move::<()>::Done(Ok(())),
    decreases replies.len(),
{
    let all = had + replies;
    let none = Seq::<ReplyView>::empty();
    assert(had + none =~= had);
    assert(moves(had + none) == transfer(source, copy, offset, none));
    assert(all.take(had.len() as int) =~= had);
    assert(all[had.len() as int] == replies[0]);
    assert(replies[0] is Data);
    let (data, eof) = match replies[0] {
        Reply::Data(data, eof) => (data, eof),
        _ => arbitrary(),
    };
    assert(serves(file, offset as nat, CHUNK as nat, data, eof));
    if data.len() > 0 {
        let rest1 = replies.skip(1);
        let had1 = had + seq![replies[0]];
        assert(all.take((had.len() + 1) as int) =~= had1);
        assert(all[(had.len() + 1) as int] == rest1[0]);
        assert(seq![replies[0]].skip(1) =~= none);
        assert(moves(had1) == Move::<()>::Ask(Call::Write { id: copy, offset, data }));
        assert(rest1[0] is Attr);
        if !eof {
            let end = offset + data.len();
            let rest2 = rest1.skip(1);
            let two = seq![replies[0], rest1[0]];
            assert forall|tail: Seq<ReplyView>| #[trigger] moves((had + two) + tail) == transfer(
                source,
                copy,
                end as u64,
                tail,
            ) by {
                assert((had + two) + tail =~= had + (two + tail));
                assert(moves(had + (two + tail)) == transfer(source, copy, offset, two + tail));
                assert((two + tail).skip(1).skip(1) =~= tail);
                assert((two + tail).skip(1)[0] == rest1[0]);
            }
            assert((had + two) + rest2 =~= all);
            lemma_transfer_succeeds(moves, source, copy, end as u64, file, had + two, rest2);
        }
    }
}

/// A copy that is granted all it asks for succeeds: whatever pieces the file is read in, it takes
/// no more than two requests for each of its bytes, and four.
pub proof fn law_granted_copy_succeeds(
    from: Seq<u8>,
    to: Seq<u8>,
    source: u64,
    file: Seq<u8>,
    replies: Seq<ReplyView>,
)
    requires
        replies.len() >= 2 * file.len() + 4,
        replies[0] == ReplyView::Id(source),
        file.len() <= u64::MAX,
        all_read_from(|h: Seq<ReplyView>| copy_moves(from, to, h), source, file, replies),
        all_granted(|h: Seq<ReplyView>| copy_moves(from, to, h), replies),
    ensures
        copy_moves(from, to, replies) == Move::<()>::Done(Ok(())),
{
    let moves = |h: Seq<ReplyView>| copy_moves(from, to, h);
    let none = Seq::<ReplyView>::empty();
    assert(replies.take(1).skip(1) =~= none);
    assert(moves(replies.take(1)) == Move::<()>::Ask(lookup(parent_of(to))));
    assert(replies[1] is Id);
    assert(replies.take(2).skip(1)[0] == replies[1]);
    assert(replies.take(2).skip(1).skip(1) =~= none);
    assert(moves(replies.take(2)) is Ask && moves(replies.take(2))->Ask_0 is Create);
    assert(replies[2] is Created);
    let copy = replies[2]->Created_0;
    let had = seq![replies[0], replies[1], replies[2]];
    let rest = replies.skip(3);
    assert(had + rest =~= replies);
    assert forall|tail: Seq<ReplyView>| #[trigger] moves(had + tail) == transfer(
        source,
        copy,
        0,
        tail,
    ) by {
        assert((had + tail).skip(1).skip(1).skip(1) =~= tail);
        assert((had + tail).skip(1)[0] == replies[1]);
        assert((had + tail).skip(1).skip(1)[0] == replies[2]);
    }
    assert(moves(had + rest) == transfer(source, copy, 0, rest));
    lemma_transfer_succeeds(moves, source, copy, 0, file, had, rest);
}

/// A transfer writes to the copy alone.
proof fn lemma_transfer_writes_the_copy(
    source: u64,
    copy: u64,
    offset: u64,
    replies: Seq<ReplyView>,
)
    ensures
        transfer(source, copy, offset, replies) matches Move::Ask(call) ==> match call {
            Call::Read { id, offset: _, count } => id == source && count == CHUNK,
            Call::Write { id, .. } => id == copy,
            _ => false,
        },
    decreases replies.len(),
{
    if replies.len() >= 2 {
        if let Reply::Data(data, _) = replies[0] {
            lemma_transfer_writes_the_copy(
                source,
                copy,
                (offset + data.len()) as u64,
                replies.skip(1).skip(1),
            );
        }
    }
}

/// Copying changes nothing but the copy: it creates the file of that name in the directory of
/// `to`, and writes to the file that was created.
pub proof fn law_copy_changes_only_the_copy(from: Seq<u8>, to: Seq<u8>, replies: Seq<ReplyView>)
    ensures
        copy_moves(from, to, replies) matches Move::Ask(call) ==> match call {
            Call::RootDir | Call::PathToId { .. } => true,
            Call::Create { dir, name, attr } => {
                &&& replies[1] == ReplyView::Id(dir)
                &&& name == name_of(to)
                &&& attr == SetAttr::unchanged()
            },
            Call::Read { id, .. } => replies[0] == ReplyView::Id(id),
            Call::Write { id, .. } => replies[2] matches Reply::Created(copy, _) && copy == id,
            _ => false,
        },
{
    let rest = replies.skip(1).skip(1).skip(1);
    if replies.len() >= 3 {
        if let Reply::Created(copy, _) = replies[2] {
            if let Reply::Id(source) = replies[0] {
                lemma_transfer_writes_the_copy(source, copy, 0, rest);
            }
        }
    }
}

/// A transfer ends at the first refusal.
proof fn lemma_refusal_ends_transfer(
    source: u64,
    copy: u64,
    offset: u64,
    replies: Seq<ReplyView>,
    status: NfsStatus,
)
    requires
        transfer(source, copy, offset, replies) is Ask,
    ensures
        transfer(source, copy, offset, replies.push(Reply::Refused(status))) == Move::<()>::Done(
            Err(error_of(status)),
        ),
    decreases replies.len(),
{
    let refused = ReplyView::Refused(status);
    lemma_one_more(replies, refused);
    lemma_one_more(replies.skip(1), refused);
    if replies.len() >= 2 {
        if let Reply::Data(data, _) = replies[0] {
            lemma_refusal_ends_transfer(
                source,
                copy,
                (offset + data.len()) as u64,
                replies.skip(1).skip(1),
                status,
            );
        }
    }
}

/// Copying ends at the first refusal, with the error of that refusal.
pub proof fn law_refusal_ends_copy(
    from: Seq<u8>,
    to: Seq<u8>,
    replies: Seq<ReplyView>,
    status: NfsStatus,
)
    requires
        copy_moves(from, to, replies) is Ask,
    ensures
        copy_moves(from, to, replies.push(Reply::Refused(status))) == Move::<()>::Done(
            Err(error_of(status)),
        ),
{
    let refused = ReplyView::Refused(status);
    lemma_one_more(replies, refused);
    lemma_one_more(replies.skip(1), refused);
    lemma_one_more(replies.skip(1).skip(1), refused);
    if replies.len() >= 3 {
        if let Reply::Created(copy, _) = replies[2] {
            if let Reply::Id(source) = replies[0] {
                lemma_refusal_ends_transfer(
                    source,
                    copy,
                    0,
                    replies.skip(1).skip(1).skip(1),
                    status,
                );
            }
        }
    }
}

/// A copy goes where it was asked to go: what is copied is the entry at `from` itself, and the copy
/// is created as `name` in the directory `dir`. Its contents are read from the first byte on.
pub proof fn law_copy_goes_where_it_was_asked_to_go(
    from: Seq<u8>,
    dir: Seq<u8>,
    name: Seq<u8>,
    source: u64,
    id: u64,
    copy: u64,
    attr: FileAttr,
)
    requires
        name.len() > 0,
        !name.contains(SLASH),
    ensures
        copy_moves(from, dir + seq![SLASH] + name, seq![]) == Move::<()>::Ask(lookup(from)),
        copy_moves(from, dir + seq![SLASH] + name, seq![Reply::Id(source)]) == Move::<()>::Ask(
            lookup(dir),
        ),
        copy_moves(from, dir + seq![SLASH] + name, seq![Reply::Id(source), Reply::Id(id)])
            == Move::<()>::Ask(
            Call::Create {
                dir: id,
                name,
                attr: SetAttr { size: None, atime: None, mtime: None },
            },
        ),
        copy_moves(
            from,
            dir + seq![SLASH] + name,
            seq![Reply::Id(source), Reply::Id(id), Reply::Created(copy, attr)],
        ) == Move::<()>::Ask(Call::Read { id: source, offset: 0, count: 1_048_576 }),
{
    assert(seq![SLASH] =~= root_path());
    law_split_undoes_join(dir, name);
}

/// A copy to a plain name goes into the root directory.
pub proof fn law_copy_to_a_plain_name_goes_into_the_root(
    from: Seq<u8>,
    name: Seq<u8>,
    source: u64,
    id: u64,
    copy: u64,
    attr: FileAttr,
)
    requires
        !name.contains(SLASH),
    ensures
        copy_moves(from, name, seq![]) == Move::<()>::Ask(lookup(from)),
        copy_moves(from, name, seq![Reply::Id(source)]) == Move::<()>::Ask(Call::RootDir),
        copy_moves(from, name, seq![Reply::Id(source), Reply::Id(id)]) == Move::<()>::Ask(
            Call::Create {
                dir: id,
                name,
                attr: SetAttr { size: None, atime: None, mtime: None },
            },
        ),
        copy_moves(
            from,
            name,
            seq![Reply::Id(source), Reply::Id(id), Reply::Created(copy, attr)],
        ) == Move::<()>::Ask(Call::Read { id: source, offset: 0, count: 1_048_576 }),
{
    assert(seq![SLASH] =~= root_path());
    law_plain_name_is_in_the_root(name);
}

/// A slash at the end of the path of the copy makes no difference.
pub proof fn law_copy_path_may_end_in_a_slash(from: Seq<u8>, to: Seq<u8>, replies: Seq<ReplyView>)
    ensures
        copy_moves(from, to.push(SLASH), replies) == copy_moves(from, to, replies),
{
    law_trailing_slash_is_ignored(to);
}

/// What a transfer does with a piece that it asked for.
proof fn lemma_piece_of_a_transfer(
    source: u64,
    copy: u64,
    start: u64,
    replies: Seq<ReplyView>,
    id: u64,
    offset: u64,
    count: u32,
    data: Seq<u8>,
    eof: bool,
    done: ReplyView,
)
    requires
        transfer(source, copy, start, replies) == Move::<()>::Ask(Call::Read { id, offset, count }),
        done is Attr,
    ensures
        id == source,
        count == 1_048_576,
        transfer(source, copy, start, replies.push(Reply::Data(data, eof))) == if data.len() == 0 {
            Move::<()>::Done(Ok(()))
        } else {
            Move::Ask(Call::Write { id: copy, offset, data })
        },
        data.len() > 0 && eof ==> transfer(
            source,
            copy,
            start,
            replies.push(Reply::Data(data, eof)).push(done),
        ) == Move::<()>::Done(Ok(())),
        data.len() > 0 && !eof ==> transfer(
            source,
            copy,
            start,
            replies.push(Reply::Data(data, eof)).push(done),
        ) == Move::<()>::Ask(
            Call::Read { id: source, offset: (offset + data.len()) as u64, count: 1_048_576 },
        ),
    decreases replies.len(),
{
    let piece = ReplyView::Data(data, eof);
    let one = replies.push(piece);
    lemma_one_more(replies, piece);
    lemma_one_more(replies.skip(1), piece);
    lemma_one_more(one, done);
    lemma_one_more(one.skip(1), done);
    if replies.len() == 0 {
        assert(one.skip(1) =~= Seq::<ReplyView>::empty());
        let none = Seq::<ReplyView>::empty();
        assert(one.push(done).skip(1).skip(1) =~= none);
        assert(one.push(done).skip(1)[0] == done);
        assert(transfer(source, copy, (offset + data.len()) as u64, none) is Ask);
    } else {
        assert(replies.len() >= 2);
        if let Reply::Data(first, _) = replies[0] {
            lemma_piece_of_a_transfer(
                source,
                copy,
                (start + first.len()) as u64,
                replies.skip(1).skip(1),
                id,
                offset,
                count,
                data,
                eof,
                done,
            );
        }
    }
}

/// Every piece that is read of the file is written to the copy, in the same place and as it is. The
/// copy goes on behind it, and it ends behind the piece that reaches the end or is empty.
pub proof fn law_every_piece_is_copied_to_its_place(
    from: Seq<u8>,
    to: Seq<u8>,
    replies: Seq<ReplyView>,
    id: u64,
    offset: u64,
    count: u32,
    data: Seq<u8>,
    eof: bool,
    done: ReplyView,
)
    requires
        copy_moves(from, to, replies) == Move::<()>::Ask(Call::Read { id, offset, count }),
        done is Attr,
    ensures
        count == 1_048_576,
        replies[0] == ReplyView::Id(id),
        data.len() == 0 ==> copy_moves(from, to, replies.push(Reply::Data(data, eof))) == Move::<
            (),
        >::Done(Ok(())),
        data.len() > 0 ==> {
            &&& replies[2] matches Reply::Created(copy, _)
            &&& copy_moves(from, to, replies.push(Reply::Data(data, eof))) == Move::<()>::Ask(
                Call::Write { id: copy, offset, data },
            )
        },
        data.len() > 0 && eof ==> copy_moves(
            from,
            to,
            replies.push(Reply::Data(data, eof)).push(done),
        ) == Move::<()>::Done(Ok(())),
        data.len() > 0 && !eof && offset + data.len() <= u64::MAX ==> copy_moves(
            from,
            to,
            replies.push(Reply::Data(data, eof)).push(done),
        ) == Move::<()>::Ask(
            Call::Read { id, offset: (offset + data.len()) as u64, count: 1_048_576 },
        ),
{
    let piece = ReplyView::Data(data, eof);
    let one = replies.push(piece);
    lemma_one_more(replies, piece);
    lemma_one_more(replies.skip(1), piece);
    lemma_one_more(replies.skip(1).skip(1), piece);
    lemma_one_more(one, done);
    lemma_one_more(one.skip(1), done);
    lemma_one_more(one.skip(1).skip(1), done);
    assert(replies.len() >= 3);
    if let Reply::Created(copy, _) = replies[2] {
        if let Reply::Id(source) = replies[0] {
            lemma_piece_of_a_transfer(
                source,
                copy,
                0,
                replies.skip(1).skip(1).skip(1),
                id,
                offset,
                count,
                data,
                eof,
                done,
            );
        }
    }
}

/// A copy succeeds only where the file and the directory were found and the copy was created.
pub proof fn law_copy_succeeds_only_when_granted(
    from: Seq<u8>,
    to: Seq<u8>,
    replies: Seq<ReplyView>,
)
    requires
        copy_moves(from, to, replies) == Move::<()>::Done(Ok(())),
    ensures
        replies.len() >= 4,
        replies[0] is Id,
        replies[1] is Id,
        replies[2] is Created,
        replies[3] is Data,
{
}

} // verus!
