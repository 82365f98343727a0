//! Attributes of an entry of the file tree, and what a WebDAV client is told of them.

use vstd::prelude::*;

use crate::error::FsError;

verus! {

/// Nanoseconds in a second.
pub const NANOS_PER_SEC: u32 = 1_000_000_000;

/// The permission bits that let someone execute a file: owner, group and others.
pub const EXECUTE_BITS: u32 = 0o111;

/// What an entry is.
#[derive(Clone, Copy, Debug, PartialEq, Eq, Structural)]
pub enum FileKind {
    Regular,
    Directory,
    BlockDevice,
    CharDevice,
    Symlink,
    Socket,
    Fifo,
}

/// A time as the file tree keeps it: seconds since the Unix epoch, and nanoseconds.
#[derive(Clone, Copy, Debug, PartialEq, Eq, Structural)]
pub struct NfsTime {
    pub seconds: u32,
    pub nseconds: u32,
}

/// The time that has passed since the Unix epoch, with less than a second in `nanos`.
#[derive(Clone, Copy, Debug, PartialEq, Eq, Structural)]
pub struct EpochTime {
    pub secs: u64,
    pub nanos: u32,
}

/// The attributes of an entry, as far as anything here depends on them.
#[derive(Clone, Copy, Debug, PartialEq, Eq, Structural)]
pub struct FileAttr {
    pub kind: FileKind,
    pub mode: u32,
    pub size: u64,
    pub atime: NfsTime,
    pub mtime: NfsTime,
    pub ctime: NfsTime,
}

/// A change of attributes: `None` leaves the attribute as it is.
#[derive(Clone, Copy, Debug, PartialEq, Eq, Structural)]
pub struct SetAttr {
    pub size: Option<u64>,
    pub atime: Option<NfsTime>,
    pub mtime: Option<NfsTime>,
}

impl SetAttr {
    /// The change that changes nothing.
    pub open spec fn unchanged() -> SetAttr {
        SetAttr { size: None, atime: None, mtime: None }
    }
}

impl Default for SetAttr {
    fn default() -> (change: SetAttr)
        ensures
            change == SetAttr::unchanged(),
    {
        SetAttr { size: None, atime: None, mtime: None }
    }
}

/// The time that a time of the file tree stands for. Nanoseconds beyond a second count as seconds.
pub open spec fn since_epoch(time: NfsTime) -> EpochTime {
    EpochTime {
        secs: (time.seconds + time.nseconds / NANOS_PER_SEC) as u64,
        nanos: time.nseconds % NANOS_PER_SEC,
    }
}

/// The time as the file tree can keep it: its seconds wrap at 32 bits.
pub open spec fn kept_time(time: EpochTime) -> NfsTime {
    NfsTime { seconds: (time.secs % 0x1_0000_0000) as u32, nseconds: time.nanos }
}

/// Reads a time of the file tree.
pub fn read_time(time: NfsTime) -> (epoch: EpochTime)
    ensures
        epoch == since_epoch(time),
{
    EpochTime {
        secs: time.seconds as u64 + (time.nseconds / NANOS_PER_SEC) as u64,
        nanos: time.nseconds % NANOS_PER_SEC,
    }
}

/// Turns a time into what the file tree can keep of it.
pub fn keep_time(time: EpochTime) -> (kept: NfsTime)
    ensures
        kept == kept_time(time),
{
    let secs: u64 = time.secs;
    assert(secs as u32 == secs % 0x1_0000_0000) by (bit_vector);
    NfsTime { seconds: #[verifier::truncate] (secs as u32), nseconds: time.nanos }
}

/// Reading a time changes only how it is written down, not the instant.
pub proof fn law_reading_a_time_keeps_the_instant(time: NfsTime)
    ensures
        since_epoch(time).nanos < NANOS_PER_SEC,
        since_epoch(time).secs * NANOS_PER_SEC + since_epoch(time).nanos == time.seconds
            * NANOS_PER_SEC + time.nseconds,
{
}

/// A time that is set is the time that is read back, as long as its seconds fit in 32 bits.
pub proof fn law_time_is_read_back(time: EpochTime)
    requires
        time.secs < 0x1_0000_0000,
        time.nanos < NANOS_PER_SEC,
    ensures
        since_epoch(kept_time(time)) == time,
{
}

/// What a WebDAV client is told of an entry.
#[derive(Clone, Copy, Debug, PartialEq, Eq, Structural)]
pub struct MirrorDavMetaData {
    pub attr: FileAttr,
}

impl View for MirrorDavMetaData {
    type V = FileAttr;

    open spec fn view(&self) -> FileAttr {
        self.attr
    }
}

impl MirrorDavMetaData {
    /// The size in bytes.
    pub fn len(&self) -> (len: u64)
        ensures
            len == self@.size,
    {
        self.attr.size
    }

    /// When the contents last changed.
    pub fn modified(&self) -> (time: Result<EpochTime, FsError>)
        ensures
            time == Ok::<EpochTime, FsError>(since_epoch(self@.mtime)),
    {
        Ok(read_time(self.attr.mtime))
    }

    /// Whether the entry is a directory.
    pub fn is_dir(&self) -> (yes: bool)
        ensures
            yes == (self@.kind == FileKind::Directory),
    {
        matches!(self.attr.kind, FileKind::Directory)
    }

    /// Whether the entry is a regular file.
    pub fn is_file(&self) -> (yes: bool)
        ensures
            yes == (self@.kind == FileKind::Regular),
    {
        matches!(self.attr.kind, FileKind::Regular)
    }

    /// Whether the entry is a symbolic link.
    pub fn is_symlink(&self) -> (yes: bool)
        ensures
            yes == (self@.kind == FileKind::Symlink),
    {
        matches!(self.attr.kind, FileKind::Symlink)
    }

    /// When the contents were last read.
    pub fn accessed(&self) -> (time: Result<EpochTime, FsError>)
        ensures
            time == Ok::<EpochTime, FsError>(since_epoch(self@.atime)),
    {
        Ok(read_time(self.attr.atime))
    }

    /// When the attributes last changed.
    pub fn status_changed(&self) -> (time: Result<EpochTime, FsError>)
        ensures
            time == Ok::<EpochTime, FsError>(since_epoch(self@.ctime)),
    {
        Ok(read_time(self.attr.ctime))
    }

    /// Whether anyone may execute the entry.
    pub fn executable(&self) -> (yes: Result<bool, FsError>)
        ensures
            yes == Ok::<bool, FsError>(may_execute(self@.mode)),
    {
        let mode: u32 = self.attr.mode;
        assert((mode & EXECUTE_BITS != 0) == (mode & 0o100 != 0 || mode & 0o010 != 0 || mode & 0o001
            != 0)) by (bit_vector);
        Ok(mode & EXECUTE_BITS != 0)
    }
}

/// Whether the mode lets the owner, the group or others execute.
pub open spec fn may_execute(mode: u32) -> bool {
    mode & 0o100 != 0 || mode & 0o010 != 0 || mode & 0o001 != 0
}

/// The attributes of an entry after a change.
pub open spec fn changed(attr: FileAttr, change: SetAttr) -> FileAttr {
    FileAttr {
        size: match change.size {
            Some(size) => size,
            None => attr.size,
        },
        atime: match change.atime {
            Some(time) => time,
            None => attr.atime,
        },
        mtime: match change.mtime {
            Some(time) => time,
            None => attr.mtime,
        },
        ..attr
    }
}

/// The change that changes nothing leaves all attributes as they are.
pub proof fn law_no_change(attr: FileAttr)
    ensures
        changed(attr, SetAttr::unchanged()) == attr,
{
}

/// The file tree keeps the nanoseconds as they are, and of the seconds what 32 bits hold.
pub proof fn law_kept_time(time: EpochTime)
    ensures
        kept_time(time).nseconds == time.nanos,
        kept_time(time).seconds <= time.secs,
        (time.secs - kept_time(time).seconds) % 0x1_0000_0000 == 0,
{
}

/// An entry is executable where any of the three execute bits is set, whatever else its mode says.
pub proof fn law_any_execute_bit_counts(mode: u32)
    ensures
        may_execute(mode) <==> mode & 0o111 != 0,
{
    assert((mode & 0o111 != 0) == (mode & 0o100 != 0 || mode & 0o010 != 0 || mode & 0o001 != 0))
        by (bit_vector);
}

} // verus!
