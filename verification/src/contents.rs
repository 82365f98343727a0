//! What files hold, and how reads and writes bear on it.

use vstd::prelude::*;

use crate::run::Call;
use crate::run::CallView;
use crate::run::Move;
use crate::run::Reply;
use crate::run::ReplyView;

verus! {

/// What a file holds once `data` has been written to it at `offset`. The file grows where needed;
/// a gap is filled with zeros.
pub open spec fn overwritten(file: Seq<u8>, offset: nat, data: Seq<u8>) -> Seq<u8> {
    let end = offset + data.len();
    Seq::new(
        if end > file.len() {
            end
        } else {
            file.len()
        },
        |i: int|
            if offset <= i < end {
                data[i - offset]
            } else if i < file.len() {
                file[i]
            } else {
                0
            },
    )
}

/// Whether a read of up to `count` bytes at `offset` of a file may bring `data` and `eof`: the
/// bytes from there on, with `eof` only where they reach the end, and without any byte only there
/// or where none was asked for.
pub open spec fn serves(
    file: Seq<u8>,
    offset: nat,
    count: nat,
    data: Seq<u8>,
    eof: bool,
) -> bool {
    &&& data.len() <= count
    &&& offset + data.len() <= file.len() || data.len() == 0
    &&& data.len() > 0 ==> data == file.subrange(offset as int, (offset + data.len()) as int)
    &&& eof || (data.len() == 0 && count > 0) ==> offset + data.len() >= file.len()
}

/// Whether `reply` to `call` is one that a file `id` with the contents `file` may give to a read.
pub open spec fn reads_from(file: Seq<u8>, id: u64, call: CallView, reply: ReplyView) -> bool {
    match (call, reply) {
        (Call::Read { id: read, offset, count }, Reply::Data(data, eof)) => read == id ==> serves(
            file,
            offset as nat,
            count as nat,
            data,
            eof,
        ),
        _ => true,
    }
}

/// What the file `id` holds after the request `call` got `reply`: a write that was carried out
/// changes it.
pub open spec fn written(file: Seq<u8>, id: u64, call: CallView, reply: ReplyView) -> Seq<u8> {
    match (call, reply) {
        (Call::Write { id: target, offset, data }, Reply::Attr(_)) => if target == id {
            overwritten(file, offset as nat, data)
        } else {
            file
        },
        _ => file,
    }
}

/// What the file `id`, which holds `file` at first, holds in the end: an operation that does what
/// `moves` says has got the replies `had` by then, and gets `replies`.
pub open spec fn left_by<T>(
    moves: spec_fn(Seq<ReplyView>) -> Move<T>,
    id: u64,
    file: Seq<u8>,
    had: Seq<ReplyView>,
    replies: Seq<ReplyView>,
) -> Seq<u8>
    decreases replies.len(),
{
    if replies.len() == 0 {
        file
    } else {
        let file = match moves(had) {
            Move::Ask(call) => written(file, id, call, replies[0]),
            Move::Done(_) => file,
        };
        left_by(moves, id, file, had.push(replies[0]), replies.skip(1))
    }
}

/// Whether all that an operation reads of the file `id` on its way through `replies` may come from
/// a file that holds `file`.
pub open spec fn all_read_from<T>(
    moves: spec_fn(Seq<ReplyView>) -> Move<T>,
    id: u64,
    file: Seq<u8>,
    replies: Seq<ReplyView>,
) -> bool {
    forall|k: int|
        0 <= k < replies.len() ==> match #[trigger] moves(replies.take(k)) {
            Move::Ask(call) => reads_from(file, id, call, replies[k]),
            Move::Done(_) => true,
        }
}

/// An operation that is done writes no more.
pub(crate) proof fn lemma_left_alone<T>(
    moves: spec_fn(Seq<ReplyView>) -> Move<T>,
    id: u64,
    file: Seq<u8>,
    had: Seq<ReplyView>,
    replies: Seq<ReplyView>,
)
    requires
        forall|tail: Seq<ReplyView>| #[trigger] moves(had + tail) is Done,
    ensures
        left_by(moves, id, file, had, replies) == file,
    decreases replies.len(),
{
    if replies.len() > 0 {
        assert(had + Seq::empty() =~= had);
        assert(moves(had + Seq::empty()) is Done);
        let next = had.push(replies[0]);
        assert forall|tail: Seq<ReplyView>| #[trigger] moves(next + tail) is Done by {
            assert(next + tail =~= had + (seq![replies[0]] + tail));
            assert(moves(had + (seq![replies[0]] + tail)) is Done);
        }
        lemma_left_alone(moves, id, file, next, replies.skip(1));
    }
}

/// What is read where something was written starts with what was written, as far as the read goes.
/// It goes on until all of it has been read.
pub proof fn law_read_gives_back_what_was_written(
    file: Seq<u8>,
    offset: nat,
    data: Seq<u8>,
    count: nat,
    read: Seq<u8>,
    eof: bool,
)
    requires
        serves(overwritten(file, offset, data), offset, count, read, eof),
    ensures
        read.len() <= data.len() ==> read == data.take(read.len() as int),
        read.len() >= data.len() ==> read.take(data.len() as int) == data,
        data.len() > 0 && count > 0 ==> read.len() > 0,
        eof ==> read.len() >= data.len(),
{
    if read.len() <= data.len() {
        assert(read =~= data.take(read.len() as int));
    } else {
        assert(read.take(data.len() as int) =~= data);
    }
}

/// A write changes no byte elsewhere.
pub proof fn law_write_leaves_the_rest(file: Seq<u8>, offset: nat, data: Seq<u8>, i: int)
    requires
        0 <= i < file.len(),
        i < offset || i >= offset + data.len(),
    ensures
        overwritten(file, offset, data)[i] == file[i],
{
}

} // verus!
