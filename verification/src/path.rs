//! Splitting a slash-separated path into the directory that holds an entry and the entry's name.

use vstd::prelude::*;

verus! {

/// The byte that separates the components of a path.
pub const SLASH: u8 = 0x2f;

/// The path of the root directory.
pub open spec fn root_path() -> Seq<u8> {
    seq![SLASH]
}

/// `path` without its trailing slashes.
pub open spec fn trimmed(path: Seq<u8>) -> Seq<u8>
    decreases path.len(),
{
    if path.len() > 0 && path.last() == SLASH {
        trimmed(path.drop_last())
    } else {
        path
    }
}

/// The position behind the last slash of `path`, or 0 where it has none.
pub open spec fn name_start(path: Seq<u8>) -> nat
    decreases path.len(),
{
    if path.len() == 0 || path.last() == SLASH {
        path.len()
    } else {
        name_start(path.drop_last())
    }
}

/// The directory that holds the entry at `path`: what stands before the last slash, trailing
/// slashes aside. It is the root where nothing stands there.
pub open spec fn parent_of(path: Seq<u8>) -> Seq<u8> {
    let start = name_start(trimmed(path));
    if start <= 1 {
        root_path()
    } else {
        trimmed(path).take(start - 1)
    }
}

/// The name of the entry at `path`: what stands behind the last slash, trailing slashes aside.
pub open spec fn name_of(path: Seq<u8>) -> Seq<u8> {
    trimmed(path).skip(name_start(trimmed(path)) as int)
}

/// Whether `path` names the root directory.
pub open spec fn names_root(path: Seq<u8>) -> bool {
    path.len() == 0 || path == root_path()
}

/// The length of `path` without its trailing slashes.
fn trimmed_len(path: &[u8]) -> (n: usize)
    ensures
        n <= path@.len(),
        path@.take(n as int) == trimmed(path@),
{
    let mut n: usize = path.len();
    assert(path@.take(n as int) =~= path@);
    while n > 0 && path[n - 1] == SLASH
        invariant
            n <= path@.len(),
            trimmed(path@) == trimmed(path@.take(n as int)),
        decreases n,
    {
        assert(path@.take(n as int).drop_last() =~= path@.take(n - 1));
        n = n - 1;
    }
    n
}

/// The position behind the last slash among the first `n` bytes of `path`.
fn start_of_name(path: &[u8], n: usize) -> (start: usize)
    requires
        n <= path@.len(),
    ensures
        start <= n,
        start == name_start(path@.take(n as int)),
{
    let mut start: usize = n;
    while start > 0 && path[start - 1] != SLASH
        invariant
            start <= n <= path@.len(),
            name_start(path@.take(n as int)) == name_start(path@.take(start as int)),
        decreases start,
    {
        assert(path@.take(start as int).drop_last() =~= path@.take(start - 1));
        start = start - 1;
    }
    start
}

/// A copy of the bytes of `path` from `from` up to `to`.
fn copy_range(path: &[u8], from: usize, to: usize) -> (copy: Vec<u8>)
    requires
        from <= to <= path@.len(),
    ensures
        copy@ == path@.subrange(from as int, to as int),
{
    let mut copy: Vec<u8> = Vec::new();
    let mut i: usize = from;
    while i < to
        invariant
            from <= i <= to <= path@.len(),
            copy@ == path@.subrange(from as int, i as int),
        decreases to - i,
    {
        copy.push(path[i]);
        i = i + 1;
    }
    copy
}

/// A copy of `path`.
pub(crate) fn copy_bytes(path: &[u8]) -> (copy: Vec<u8>)
    ensures
        copy@ == path@,
{
    let copy = copy_range(path, 0, path.len());
    assert(copy@ =~= path@);
    copy
}

/// The directory that holds the entry at `path`.
pub fn parent_path(path: &[u8]) -> (parent: Vec<u8>)
    ensures
        parent@ == parent_of(path@),
{
    let n: usize = trimmed_len(path);
    let start: usize = start_of_name(path, n);
    if start <= 1 {
        let mut root: Vec<u8> = Vec::new();
        root.push(SLASH);
        assert(root@ =~= root_path());
        root
    } else {
        let parent = copy_range(path, 0, start - 1);
        assert(parent@ =~= path@.take(n as int).take(start - 1));
        parent
    }
}

/// The name of the entry at `path`.
pub fn filename_from_path(path: &[u8]) -> (name: Vec<u8>)
    ensures
        name@ == name_of(path@),
{
    let n: usize = trimmed_len(path);
    let start: usize = start_of_name(path, n);
    let name = copy_range(path, start, n);
    assert(name@ =~= path@.take(n as int).skip(start as int));
    name
}

/// Whether `path` is "/" or empty.
pub fn is_root(path: &[u8]) -> (root: bool)
    ensures
        root == names_root(path@),
{
    let root = path.len() == 0 || (path.len() == 1 && path[0] == SLASH);
    assert(root ==> path@.len() == 0 || path@ =~= root_path());
    root
}

/// What `trimmed` leaves: a prefix that does not end in a slash, followed by slashes only.
proof fn lemma_trimmed(path: Seq<u8>)
    ensures
        trimmed(path).len() <= path.len(),
        trimmed(path) == path.take(trimmed(path).len() as int),
        trimmed(path).len() > 0 ==> trimmed(path).last() != SLASH,
        forall|i: int| trimmed(path).len() <= i < path.len() ==> path[i] == SLASH,
    decreases path.len(),
{
    if path.len() > 0 && path.last() == SLASH {
        lemma_trimmed(path.drop_last());
        assert(path.drop_last().take(trimmed(path).len() as int) =~= path.take(
            trimmed(path).len() as int,
        ));
        assert forall|i: int| trimmed(path).len() <= i < path.len() implies path[i] == SLASH by {
            if i < path.len() - 1 {
                assert(path.drop_last()[i] == SLASH);
            }
        }
    } else {
        assert(path.take(path.len() as int) =~= path);
    }
}

/// Where `name_start` points: behind a slash, with no slash from there on.
proof fn lemma_name_start(path: Seq<u8>)
    ensures
        name_start(path) <= path.len(),
        name_start(path) > 0 ==> path[name_start(path) - 1] == SLASH,
        forall|i: int| name_start(path) <= i < path.len() ==> path[i] != SLASH,
    decreases path.len(),
{
    if path.len() > 0 && path.last() != SLASH {
        lemma_name_start(path.drop_last());
        assert forall|i: int| name_start(path) <= i < path.len() implies path[i] != SLASH by {
            if i < path.len() - 1 {
                assert(path.drop_last()[i] != SLASH);
            }
        }
    }
}

/// The name of an entry holds no slash.
pub proof fn law_name_has_no_slash(path: Seq<u8>)
    ensures
        !name_of(path).contains(SLASH),
{
    lemma_name_start(trimmed(path));
}

/// The directory that holds an entry is never the empty path.
pub proof fn law_parent_is_not_empty(path: Seq<u8>)
    ensures
        parent_of(path).len() > 0,
{
    lemma_name_start(trimmed(path));
}

/// Only a path of slashes, or the empty one, leaves no name.
pub proof fn law_only_slashes_leave_no_name(path: Seq<u8>)
    ensures
        name_of(path).len() == 0 <==> (forall|i: int| 0 <= i < path.len() ==> path[i] == SLASH),
{
    lemma_trimmed(path);
    lemma_name_start(trimmed(path));
    let t = trimmed(path);
    if t.len() > 0 {
        assert(path[t.len() - 1] == t.last());
    }
}

/// The two parts of a path, joined again by a slash, are the path without its trailing slashes.
/// A path without any other slash is a name in the root directory.
pub proof fn law_parts_rejoin(path: Seq<u8>)
    ensures
        !trimmed(path).contains(SLASH) ==> parent_of(path) == root_path() && name_of(path)
            == trimmed(path),
        trimmed(path).contains(SLASH) ==> {
            ||| parent_of(path) == root_path() && trimmed(path) == root_path() + name_of(path)
            ||| trimmed(path) == parent_of(path) + root_path() + name_of(path)
        },
{
    let t = trimmed(path);
    let start = name_start(t);
    lemma_name_start(t);
    if t.contains(SLASH) {
        if start == 1 {
            assert(t =~= root_path() + name_of(path));
        } else {
            assert(start > 1);
            assert(t =~= parent_of(path) + root_path() + name_of(path));
        }
    } else {
        assert(start == 0) by {
            if start > 0 {
                assert(t.contains(t[start - 1]));
            }
        }
        assert(name_of(path) =~= t);
    }
}

/// A slash at the end of a path changes neither part.
pub proof fn law_trailing_slash_is_ignored(path: Seq<u8>)
    ensures
        parent_of(path.push(SLASH)) == parent_of(path),
        name_of(path.push(SLASH)) == name_of(path),
{
    assert(path.push(SLASH).drop_last() =~= path);
}

/// Splitting undoes joining: the entry `name` of the directory `dir` is found in `dir` under
/// `name`.
pub proof fn law_split_undoes_join(dir: Seq<u8>, name: Seq<u8>)
    requires
        name.len() > 0,
        !name.contains(SLASH),
    ensures
        name_of(dir + root_path() + name) == name,
        parent_of(dir + root_path() + name) == if dir.len() == 0 {
            root_path()
        } else {
            dir
        },
{
    let path = dir + root_path() + name;
    assert(path.last() == name.last());
    assert(name.contains(name.last()));
    assert(trimmed(path) == path);
    lemma_name_start(path);
    let start = name_start(path);
    assert(path[dir.len() as int] == SLASH);
    if start > dir.len() + 1 {
        assert(path[start - 1] == name[start - 1 - dir.len() - 1]);
        assert(name.contains(path[start - 1]));
    }
    assert(start == dir.len() + 1);
    assert(name_of(path) =~= name);
    assert(path.take(start - 1) =~= dir);
}

/// A name by itself stands for an entry of the root directory.
pub proof fn law_plain_name_is_in_the_root(name: Seq<u8>)
    requires
        !name.contains(SLASH),
    ensures
        parent_of(name) == seq![SLASH],
        name_of(name) == name,
{
    if name.len() > 0 {
        assert(name.contains(name.last()));
    }
    assert(trimmed(name) == name);
    lemma_name_start(name);
    let start = name_start(name);
    if start > 0 {
        assert(name.contains(name[start - 1]));
    }
    assert(name_of(name) =~= name);
}

} // verus!
