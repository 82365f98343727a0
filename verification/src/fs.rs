//! The file tree as a WebDAV file system: every operation that a client can ask for.

use std::sync::Arc;
use vstd::prelude::*;

use crate::attr::changed;
use crate::attr::EpochTime;
use crate::attr::FileAttr;
use crate::attr::keep_time;
use crate::attr::kept_time;
use crate::attr::law_time_is_read_back;
use crate::attr::MirrorDavMetaData;
use crate::attr::NANOS_PER_SEC;
use crate::attr::NfsTime;
use crate::attr::SetAttr;
use crate::attr::since_epoch;
use crate::change::ChangeRun;
use crate::change::create_dir_moves;
use crate::change::remove_moves;
use crate::change::set_attr_moves;
use crate::copy::copy_moves;
use crate::copy::CopyRun;
use crate::file::MirrorDavFile;
use crate::inspect::metadata_moves;
use crate::inspect::MetadataRun;
use crate::inspect::read_dir_moves;
use crate::inspect::ReadDirRun;
use crate::listing::MirrorDavDirEntry;
use crate::listing::MirrorDavStream;
use crate::open::open_moves;
use crate::open::OpenOptions;
use crate::open::OpenRun;
use crate::rename::rename_moves;
use crate::rename::RenameRun;
use crate::resolve::lookup;
use crate::run::Call;
use crate::run::leads;
use crate::run::Move;
use crate::run::Reply;
use crate::run::ReplyView;
use crate::run::Step;

verus! {

/// A file tree `F`, shared between the operations on it.
#[derive(Debug)]
pub struct MirrorDavFS<F> {
    inner: Arc<F>,
}

impl<F> View for MirrorDavFS<F> {
    type V = F;

    closed spec fn view(&self) -> F {
        *self.inner
    }
}

/// Calls `Arc::clone`, which makes another pointer to the same value.
#[verifier::external_body]
fn share<F>(value: &Arc<F>) -> (shared: Arc<F>)
    ensures
        *shared == **value,
{
    value.clone()
}

impl<F> Clone for MirrorDavFS<F> {
    fn clone(&self) -> (copy: Self)
        ensures
            copy@ == self@,
    {
        MirrorDavFS { inner: share(&self.inner) }
    }
}

/// The change that sets the time of last modification. A time before the epoch changes nothing.
pub open spec fn modified_at(tm: Option<EpochTime>) -> SetAttr {
    SetAttr {
        mtime: match tm {
            Some(time) => Some(kept_time(time)),
            None => None,
        },
        ..SetAttr::unchanged()
    }
}

/// The change that sets the time of last access. A time before the epoch changes nothing.
pub open spec fn accessed_at(tm: Option<EpochTime>) -> SetAttr {
    SetAttr {
        atime: match tm {
            Some(time) => Some(kept_time(time)),
            None => None,
        },
        ..SetAttr::unchanged()
    }
}

impl<F> MirrorDavFS<F> {
    /// A WebDAV file system on the file tree `fs`.
    pub fn new(fs: F) -> (dav: Self)
        ensures
            dav@ == fs,
    {
        MirrorDavFS { inner: Arc::new(fs) }
    }

    /// The file tree that answers the requests.
    pub fn backend(&self) -> (fs: &F)
        ensures
            *fs == self@,
    {
        &*self.inner
    }

    /// Opens the file at `path`. The file that this comes to is on the same file tree.
    pub fn open(&self, path: &[u8], options: OpenOptions) -> (step: Step<
        OpenRun<F>,
        MirrorDavFile<F>,
    >)
        ensures
            leads(step, |replies: Seq<ReplyView>| open_moves(self@, path@, options, replies)),
    {
        crate::open::open(self.clone(), path, options)
    }

    /// Lists the directory at `path`.
    pub fn read_dir(&self, path: &[u8]) -> (step: Step<
        ReadDirRun,
        MirrorDavStream<MirrorDavDirEntry>,
    >)
        ensures
            leads(step, |replies: Seq<ReplyView>| read_dir_moves(path@, replies)),
    {
        crate::inspect::read_dir(path)
    }

    /// Asks what is known of the entry at `path`.
    pub fn metadata(&self, path: &[u8]) -> (step: Step<MetadataRun, MirrorDavMetaData>)
        ensures
            leads(step, |replies: Seq<ReplyView>| metadata_moves(path@, replies)),
    {
        crate::inspect::metadata(path)
    }

    /// Makes the directory at `path`.
    pub fn create_dir(&self, path: &[u8]) -> (step: Step<ChangeRun, ()>)
        ensures
            leads(step, |replies: Seq<ReplyView>| create_dir_moves(path@, replies)),
    {
        crate::change::create_dir(path)
    }

    /// Removes the directory at `path`.
    pub fn remove_dir(&self, path: &[u8]) -> (step: Step<ChangeRun, ()>)
        ensures
            leads(step, |replies: Seq<ReplyView>| remove_moves(path@, replies)),
    {
        crate::change::remove(path)
    }

    /// Removes the file at `path`.
    pub fn remove_file(&self, path: &[u8]) -> (step: Step<ChangeRun, ()>)
        ensures
            leads(step, |replies: Seq<ReplyView>| remove_moves(path@, replies)),
    {
        crate::change::remove(path)
    }

    /// Renames the entry at `from` to `to`.
    pub fn rename(&self, from: &[u8], to: &[u8]) -> (step: Step<RenameRun, ()>)
        ensures
            leads(step, |replies: Seq<ReplyView>| rename_moves(from@, to@, replies)),
    {
        crate::rename::rename(from, to)
    }

    /// Copies the file at `from` to `to`.
    pub fn copy(&self, from: &[u8], to: &[u8]) -> (step: Step<CopyRun, ()>)
        ensures
            leads(step, |replies: Seq<ReplyView>| copy_moves(from@, to@, replies)),
    {
        crate::copy::copy(from, to)
    }

    /// Sets when the entry at `path` was last modified. `tm` is `None` for a time before the
    /// epoch.
    pub fn set_modified(&self, path: &[u8], tm: Option<EpochTime>) -> (step: Step<ChangeRun, ()>)
        ensures
            leads(step, |replies: Seq<ReplyView>| set_attr_moves(path@, modified_at(tm), replies)),
    {
        let mut attr = SetAttr::default();
        if let Some(time) = tm {
            attr.mtime = Some(keep_time(time));
        }
        crate::change::set_attr(path, attr)
    }

    /// Sets when the entry at `path` was last accessed. `tm` is `None` for a time before the
    /// epoch.
    pub fn set_accessed(&self, path: &[u8], tm: Option<EpochTime>) -> (step: Step<ChangeRun, ()>)
        ensures
            leads(step, |replies: Seq<ReplyView>| set_attr_moves(path@, accessed_at(tm), replies)),
    {
        let mut attr = SetAttr::default();
        if let Some(time) = tm {
            attr.atime = Some(keep_time(time));
        }
        crate::change::set_attr(path, attr)
    }
}

/// A modification time that is set is the one that a client is told of afterwards, as long as its
/// seconds fit in 32 bits; no other attribute changes. A time before the epoch changes nothing.
pub proof fn law_modified_time_is_read_back(attr: FileAttr, time: EpochTime)
    requires
        time.secs < 0x1_0000_0000,
        time.nanos < NANOS_PER_SEC,
    ensures
        since_epoch(changed(attr, modified_at(Some(time))).mtime) == time,
        changed(attr, modified_at(Some(time))) == (FileAttr { mtime: kept_time(time), ..attr }),
        changed(attr, modified_at(None)) == attr,
{
    law_time_is_read_back(time);
}

/// An access time that is set is the one that a client is told of afterwards, as long as its
/// seconds fit in 32 bits; no other attribute changes. A time before the epoch changes nothing.
pub proof fn law_access_time_is_read_back(attr: FileAttr, time: EpochTime)
    requires
        time.secs < 0x1_0000_0000,
        time.nanos < NANOS_PER_SEC,
    ensures
        since_epoch(changed(attr, accessed_at(Some(time))).atime) == time,
        changed(attr, accessed_at(Some(time))) == (FileAttr { atime: kept_time(time), ..attr }),
        changed(attr, accessed_at(None)) == attr,
{
    law_time_is_read_back(time);
}

/// Setting the time of last modification sets it on the entry at the path, to that time, as far as
/// 32 bits hold its seconds; it names no other attribute. A time before the epoch names none.
pub proof fn law_set_modified_sets_the_modification_time(path: Seq<u8>, time: EpochTime, id: u64)
    ensures
        set_attr_moves(path, modified_at(Some(time)), seq![]) == Move::<()>::Ask(lookup(path)),
        set_attr_moves(path, modified_at(Some(time)), seq![Reply::Id(id)]) == Move::<()>::Ask(
            Call::SetAttr {
                id,
                attr: SetAttr {
                    size: None,
                    atime: None,
                    mtime: Some(
                        NfsTime {
                            seconds: (time.secs % 0x1_0000_0000) as u32,
                            nseconds: time.nanos,
                        },
                    ),
                },
            },
        ),
        set_attr_moves(path, modified_at(None), seq![Reply::Id(id)]) == Move::<()>::Ask(
            Call::SetAttr { id, attr: SetAttr { size: None, atime: None, mtime: None } },
        ),
{
}

/// Setting the time of last access sets it on the entry at the path, to that time, as far as 32
/// bits hold its seconds; it names no other attribute. A time before the epoch names none.
pub proof fn law_set_accessed_sets_the_access_time(path: Seq<u8>, time: EpochTime, id: u64)
    ensures
        set_attr_moves(path, accessed_at(Some(time)), seq![]) == Move::<()>::Ask(lookup(path)),
        set_attr_moves(path, accessed_at(Some(time)), seq![Reply::Id(id)]) == Move::<()>::Ask(
            Call::SetAttr {
                id,
                attr: SetAttr {
                    size: None,
                    atime: Some(
                        NfsTime {
                            seconds: (time.secs % 0x1_0000_0000) as u32,
                            nseconds: time.nanos,
                        },
                    ),
                    mtime: None,
                },
            },
        ),
        set_attr_moves(path, accessed_at(None), seq![Reply::Id(id)]) == Move::<()>::Ask(
            Call::SetAttr { id, attr: SetAttr { size: None, atime: None, mtime: None } },
        ),
{
}

} // verus!
