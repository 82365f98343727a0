//! An open file: on which file tree, which one it is there, and the position at which it is read
//! and written.

use bytes::Bytes;
use vstd::prelude::*;

use crate::attr::MirrorDavMetaData;
use crate::buffer::buffer_from;
use crate::buffer::buffer_len;
use crate::buffer::content;
use crate::contents::law_read_gives_back_what_was_written;
use crate::contents::overwritten;
use crate::contents::reads_from;
use crate::contents::serves;
use crate::contents::written;
use crate::error::FsError;
use crate::fs::MirrorDavFS;
use crate::run::Call;
use crate::run::CallView;
use crate::run::FsCall;
use crate::run::FsReply;
use crate::run::refusal;
use crate::run::refused;
use crate::run::Reply;
use crate::run::ReplyView;
use crate::run::viewed;

verus! {

/// Where to move the position of a file.
#[derive(Clone, Copy, Debug, PartialEq, Eq, Structural)]
pub enum SeekFrom {
    /// So many bytes behind the start.
    Start(u64),
    /// So many bytes behind the end, or before it.
    End(i64),
    /// So many bytes behind the present position, or before it.
    Current(i64),
}

/// An open file. All that it asks goes to the file tree on which it was opened.
#[derive(Debug)]
pub struct MirrorDavFile<F> {
    pub fs: MirrorDavFS<F>,
    pub id: u64,
    pub offset: u64,
}

/// An open file as a mathematical value.
pub struct FileView<F> {
    /// The file tree on which the file was opened.
    pub tree: F,
    /// Which file it is there.
    pub id: u64,
    /// The position.
    pub offset: u64,
}

impl<F> View for MirrorDavFile<F> {
    type V = FileView<F>;

    open spec fn view(&self) -> FileView<F> {
        FileView { tree: self.fs@, id: self.id, offset: self.offset }
    }
}

/// A write that has been asked for: how far it will move the position.
#[derive(Clone, Copy, Debug, PartialEq, Eq, Structural)]
pub struct PendingWrite {
    pub len: u64,
}

/// `base` moved by `by`, or 0 where that would be before the start.
pub open spec fn moved(base: u64, by: i64) -> int {
    if base + by < 0 {
        0
    } else {
        base + by
    }
}

impl<F> FileView<F> {
    /// A file at its start.
    pub open spec fn at_start(tree: F, id: u64) -> FileView<F> {
        FileView { tree, id, offset: 0 }
    }

    /// The file with its position at `offset`.
    pub open spec fn at(self, offset: u64) -> FileView<F> {
        FileView { offset, ..self }
    }

    /// The file with its position `len` bytes further on; positions wrap at 64 bits.
    pub open spec fn advanced(self, len: nat) -> FileView<F> {
        self.at(((self.offset + len) % 0x1_0000_0000_0000_0000) as u64)
    }

    /// The position that `pos` means for a file of `size` bytes.
    pub open spec fn target(self, pos: SeekFrom, size: u64) -> int {
        match pos {
            SeekFrom::Start(offset) => offset as int,
            SeekFrom::End(by) => moved(size, by),
            SeekFrom::Current(by) => moved(self.offset, by),
        }
    }
}

impl<F> MirrorDavFile<F> {
    /// The file tree that answers what the file asks: the one on which it was opened.
    pub fn backend(&self) -> (fs: &F)
        ensures
            *fs == self@.tree,
    {
        self.fs.backend()
    }

    /// Asks what is known of the file.
    pub fn metadata(&self) -> (call: FsCall)
        ensures
            call@ == (CallView::GetAttr { id: self@.id }),
    {
        Call::GetAttr { id: self.id }
    }

    /// Takes the reply to `metadata`.
    pub fn metadata_done(&self, reply: FsReply) -> (meta: Result<MirrorDavMetaData, FsError>)
        ensures
            viewed(meta) == match reply@ {
                Reply::Attr(attr) => Ok(attr),
                refused => Err(refusal(refused)),
            },
    {
        match reply {
            Reply::Attr(attr) => Ok(MirrorDavMetaData { attr }),
            reply => Err(refused(&reply)),
        }
    }

    /// Asks to write the buffer at the position.
    pub fn write_bytes(&self, buf: Bytes) -> (asked: (FsCall, PendingWrite))
        ensures
            asked.0@ == (CallView::Write {
                id: self@.id,
                offset: self@.offset,
                data: content(buf),
            }),
            asked.1.len == content(buf).len(),
    {
        let len: usize = buffer_len(&buf);
        (
            Call::Write { id: self.id, offset: self.offset, data: buf },
            PendingWrite { len: len as u64 },
        )
    }

    /// Takes the reply to `write_bytes`: the position moves behind what was written. It stays
    /// where the write failed.
    pub fn write_done(&mut self, write: PendingWrite, reply: FsReply) -> (result: Result<
        (),
        FsError,
    >)
        ensures
            reply@ is Attr ==> result == Ok::<(), FsError>(()) && final(self)@ == old(
                self,
            )@.advanced(write.len as nat),
            !(reply@ is Attr) ==> result == Err::<(), FsError>(refusal(reply@)) && *final(self)
                == *old(self),
    {
        match reply {
            Reply::Attr(_) => {
                self.offset = self.offset.wrapping_add(write.len);
                Ok(())
            },
            reply => Err(refused(&reply)),
        }
    }

    /// Asks for up to `count` bytes at the position; `count` wraps at 32 bits.
    pub fn read_bytes(&self, count: usize) -> (call: FsCall)
        ensures
            call@ == (CallView::Read {
                id: self@.id,
                offset: self@.offset,
                count: (count as int % 0x1_0000_0000) as u32,
            }),
    {
        assert(count as u32 == (count as u64) % 0x1_0000_0000) by (bit_vector);
        Call::Read {
            id: self.id,
            offset: self.offset,
            count: #[verifier::truncate] (count as u32),
        }
    }

    /// Takes the reply to `read_bytes`: the position moves behind what was read. It stays where
    /// the read failed.
    pub fn read_done(&mut self, reply: FsReply) -> (result: Result<Bytes, FsError>)
        ensures
            match reply@ {
                Reply::Data(data, _) => {
                    &&& result matches Ok(buffer) && content(buffer) == data
                    &&& final(self)@ == old(self)@.advanced(data.len())
                },
                refused => {
                    &&& result == Err::<Bytes, FsError>(refusal(refused))
                    &&& *final(self) == *old(self)
                },
            },
    {
        match reply {
            Reply::Data(data, _) => {
                self.offset = self.offset.wrapping_add(data.len() as u64);
                Ok(buffer_from(data))
            },
            reply => Err(refused(&reply)),
        }
    }

    /// Asks for what `seek_done` needs: the size of the file.
    pub fn seek(&self) -> (call: FsCall)
        ensures
            call@ == (CallView::GetAttr { id: self@.id }),
    {
        Call::GetAttr { id: self.id }
    }

    /// Whether the position that `pos` means for a file of `size` bytes is an offset at all.
    pub fn can_seek(&self, pos: SeekFrom, size: u64) -> (yes: bool)
        ensures
            yes == (self@.target(pos, size) <= u64::MAX),
    {
        match pos {
            SeekFrom::Start(_) => true,
            SeekFrom::End(by) => by < 0 || by as u64 <= u64::MAX - size,
            SeekFrom::Current(by) => by < 0 || by as u64 <= u64::MAX - self.offset,
        }
    }

    /// Takes the reply to `seek`: moves the position to where `pos` says, and not before the
    /// start. It stays where the file cannot be asked for its size.
    pub fn seek_done(&mut self, pos: SeekFrom, reply: FsReply) -> (result: Result<u64, FsError>)
        requires
            reply@ matches Reply::Attr(attr) ==> old(self)@.target(pos, attr.size) <= u64::MAX,
        ensures
            match reply@ {
                Reply::Attr(attr) => {
                    &&& result matches Ok(offset) && offset == old(self)@.target(pos, attr.size)
                    &&& final(self)@ == old(self)@.at(old(self)@.target(pos, attr.size) as u64)
                },
                refused => {
                    &&& result == Err::<u64, FsError>(refusal(refused))
                    &&& *final(self) == *old(self)
                },
            },
    {
        match reply {
            Reply::Attr(attr) => {
                let offset: u64 = match pos {
                    SeekFrom::Start(offset) => offset,
                    SeekFrom::End(by) => move_offset(attr.size, by),
                    SeekFrom::Current(by) => move_offset(self.offset, by),
                };
                self.offset = offset;
                Ok(offset)
            },
            reply => Err(refused(&reply)),
        }
    }

    /// Nothing is held back, so there is nothing to flush.
    pub fn flush(&mut self) -> (result: Result<(), FsError>)
        ensures
            result == Ok::<(), FsError>(()),
            *final(self) == *old(self),
    {
        Ok(())
    }
}

/// Moves an offset, and not before the start.
fn move_offset(base: u64, by: i64) -> (offset: u64)
    requires
        moved(base, by) <= u64::MAX,
    ensures
        offset == moved(base, by),
{
    if by < 0 {
        let back: u64 = (-(by + 1)) as u64 + 1;
        base.saturating_sub(back)
    } else {
        base + by as u64
    }
}

/// Two writes in a row leave what one write of both leaves, and the position behind it.
pub proof fn law_writes_in_a_row<F>(file: FileView<F>, held: Seq<u8>, a: Seq<u8>, b: Seq<u8>)
    requires
        file.offset + a.len() + b.len() <= u64::MAX,
    ensures
        overwritten(
            overwritten(held, file.offset as nat, a),
            file.advanced(a.len()).offset as nat,
            b,
        ) == overwritten(held, file.offset as nat, a + b),
        file.advanced(a.len()).advanced(b.len()) == file.advanced((a + b).len()),
{
    assert(overwritten(
        overwritten(held, file.offset as nat, a),
        file.advanced(a.len()).offset as nat,
        b,
    ) =~= overwritten(held, file.offset as nat, a + b));
}

/// Two reads in a row bring what lies together in the file.
pub proof fn law_reads_in_a_row<F>(
    file: FileView<F>,
    held: Seq<u8>,
    count: nat,
    a: Seq<u8>,
    a_eof: bool,
    next_count: nat,
    b: Seq<u8>,
    b_eof: bool,
)
    requires
        file.offset + a.len() + b.len() <= u64::MAX,
        serves(held, file.offset as nat, count, a, a_eof),
        serves(held, file.advanced(a.len()).offset as nat, next_count, b, b_eof),
        file.offset <= held.len(),
    ensures
        a + b == held.subrange(file.offset as int, file.offset + a.len() + b.len()),
{
    assert(a + b =~= held.subrange(file.offset as int, file.offset + a.len() + b.len()));
}

/// What was written is what is read after going back to where it was written, as far as the read
/// goes: all of it where the read brings as many bytes.
pub proof fn law_write_go_back_and_read<F>(
    file: FileView<F>,
    held: Seq<u8>,
    data: Seq<u8>,
    done: ReplyView,
    size: u64,
    count: u32,
    read: Seq<u8>,
    eof: bool,
)
    requires
        done is Attr,
        reads_from(
            written(
                held,
                file.id,
                Call::Write { id: file.id, offset: file.offset, data },
                done,
            ),
            file.id,
            Call::Read {
                id: file.id,
                offset: file.advanced(data.len()).target(SeekFrom::Start(file.offset), size) as u64,
                count,
            },
            Reply::Data(read, eof),
        ),
    ensures
        read.len() <= data.len() ==> read == data.take(read.len() as int),
        read.len() >= data.len() ==> read.take(data.len() as int) == data,
        read.len() == data.len() ==> read == data,
        data.len() > 0 && count > 0 ==> read.len() > 0,
{
    law_read_gives_back_what_was_written(held, file.offset as nat, data, count as nat, read, eof);
    assert(data.take(data.len() as int) =~= data);
}

/// Moving by nothing stays, moving forth and back by the same distance returns, the end is the
/// size, and no move goes before the start.
pub proof fn law_seek<F>(file: FileView<F>, by: i64, size: u64)
    requires
        by >= 0,
        file.offset + by <= u64::MAX,
    ensures
        file.target(SeekFrom::Current(0), size) == file.offset,
        file.target(SeekFrom::End(0), size) == size,
        file.at(file.target(SeekFrom::Current(by), size) as u64).target(
            SeekFrom::Current((-by) as i64),
            size,
        ) == file.offset,
        forall|pos: SeekFrom| #[trigger] file.target(pos, size) >= 0,
{
}

/// Reading, writing and seeking move the position alone: the file stays the same file on the same
/// file tree.
pub proof fn law_file_stays_on_its_tree<F>(file: FileView<F>, len: nat, offset: u64)
    ensures
        file.advanced(len).tree == file.tree && file.advanced(len).id == file.id,
        file.at(offset).tree == file.tree && file.at(offset).id == file.id,
{
}

/// A seek goes where it was told: so many bytes from the start, or so many from the end or the
/// position, forth or back, but not before the start.
pub proof fn law_seek_goes_where_it_was_told<F>(
    file: FileView<F>,
    offset: u64,
    by: i64,
    size: u64,
)
    ensures
        file.target(SeekFrom::Start(offset), size) == offset,
        size + by >= 0 ==> file.target(SeekFrom::End(by), size) == size + by,
        size + by < 0 ==> file.target(SeekFrom::End(by), size) == 0,
        file.offset + by >= 0 ==> file.target(SeekFrom::Current(by), size) == file.offset + by,
        file.offset + by < 0 ==> file.target(SeekFrom::Current(by), size) == 0,
        file.at(offset).offset == offset,
{
}

/// A read or a write of `len` bytes moves the position on by `len`, round the end of all offsets
/// where need be.
pub proof fn law_position_moves_behind_what_was_moved<F>(file: FileView<F>, len: nat)
    ensures
        file.offset + len <= u64::MAX ==> file.advanced(len).offset == file.offset + len,
        (file.offset + len - file.advanced(len).offset) % 0x1_0000_0000_0000_0000 == 0,
{
}

} // verus!
