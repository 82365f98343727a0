//! Directory listings as a WebDAV client gets them.

use vstd::prelude::*;

use crate::attr::FileAttr;
use crate::attr::MirrorDavMetaData;
use crate::error::FsError;
use crate::run::Entry;

verus! {

/// An entry of a directory listing.
#[derive(Clone, Debug, PartialEq, Eq)]
pub struct MirrorDavDirEntry {
    pub name: Vec<u8>,
    pub attr: FileAttr,
}

impl View for MirrorDavDirEntry {
    type V = (Seq<u8>, FileAttr);

    open spec fn view(&self) -> (Seq<u8>, FileAttr) {
        (self.name@, self.attr)
    }
}

impl MirrorDavDirEntry {
    /// The name of the entry.
    pub fn name(&self) -> (name: Vec<u8>)
        ensures
            name@ == self@.0,
    {
        self.name.clone()
    }

    /// What is known of the entry.
    pub fn metadata(&self) -> (meta: Result<MirrorDavMetaData, FsError>)
        ensures
            meta == Ok::<MirrorDavMetaData, FsError>(MirrorDavMetaData { attr: self@.1 }),
    {
        Ok(MirrorDavMetaData { attr: self.attr })
    }
}

/// A listing from which entries are taken one after the other.
pub struct MirrorDavStream<T> {
    pub items: Vec<T>,
}

impl<T: View> View for MirrorDavStream<T> {
    type V = Seq<T::V>;

    open spec fn view(&self) -> Seq<T::V> {
        self.items@.map_values(|item: T| item@)
    }
}

impl<T> MirrorDavStream<T> {
    /// Takes the first of the remaining items; `None` once there is none.
    pub fn poll_next(&mut self) -> (item: Option<Result<T, FsError>>)
        ensures
            item == polled(old(self).items@),
            final(self).items@ == remaining(old(self).items@, 1),
    {
        if self.items.is_empty() {
            assert(self.items@ =~= remaining(self.items@, 1));
            None
        } else {
            let ghost before = self.items@;
            let item = self.items.remove(0);
            assert(self.items@ =~= remaining(before, 1));
            Some(Ok(item))
        }
    }
}

/// What is taken next from a stream of `items`.
pub open spec fn polled<T>(items: Seq<T>) -> Option<Result<T, FsError>> {
    if items.len() == 0 {
        None
    } else {
        Some(Ok(items[0]))
    }
}

/// What `taken` takes leave of a stream of `items`.
pub open spec fn remaining<T>(items: Seq<T>, taken: nat) -> Seq<T> {
    if taken <= items.len() {
        items.skip(taken as int)
    } else {
        Seq::empty()
    }
}

/// A stream hands out its items in order, each once, and then none.
pub proof fn law_stream_hands_out_in_order<T>(items: Seq<T>, taken: nat)
    ensures
        polled(remaining(items, taken)) == if taken < items.len() {
            Some(Ok::<T, FsError>(items[taken as int]))
        } else {
            None
        },
        remaining(remaining(items, taken), 1) == remaining(items, taken + 1),
        remaining(items, 0) == items,
{
    assert(remaining(remaining(items, taken), 1) =~= remaining(items, taken + 1));
    assert(remaining(items, 0) =~= items);
}

/// The listing for the entries of the file tree: each with its name and its attributes, in the
/// same order.
pub open spec fn listed(entries: Seq<Entry<Seq<u8>>>) -> Seq<(Seq<u8>, FileAttr)> {
    entries.map_values(|e: Entry<Seq<u8>>| (e.name, e.attr))
}

/// Turns the entries of the file tree into a listing.
pub(crate) fn listing(entries: Vec<Entry<Vec<u8>>>) -> (stream: MirrorDavStream<MirrorDavDirEntry>)
    ensures
        stream@ == listed(entries@.map_values(|e: Entry<Vec<u8>>| e@)),
{
    let ghost all = entries@;
    let mut items: Vec<MirrorDavDirEntry> = Vec::new();
    for entry in iter: entries
        invariant
            iter.seq() == all,
            items@.len() == iter.index(),
            forall|i: int|
                0 <= i < items@.len() ==> #[trigger] items@[i]@ == (all[i].name@, all[i].attr),
    {
        items.push(MirrorDavDirEntry { name: entry.name, attr: entry.attr });
    }
    let stream = MirrorDavStream { items };
    assert(stream@ =~= listed(all.map_values(|e: Entry<Vec<u8>>| e@)));
    stream
}

} // verus!
