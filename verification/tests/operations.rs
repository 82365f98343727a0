use std::collections::BTreeMap;

use bytes::Bytes;
use nfsdav::attr::EpochTime;
use nfsdav::attr::FileAttr;
use nfsdav::attr::FileKind;
use nfsdav::attr::NfsTime;
use nfsdav::attr::SetAttr;
use nfsdav::error::FsError;
use nfsdav::error::NfsStatus;
use nfsdav::file::MirrorDavFile;
use nfsdav::file::SeekFrom;
use nfsdav::fs::MirrorDavFS;
use nfsdav::open::OpenOptions;
use nfsdav::open::OpenRun;
use nfsdav::resolve::resolve_path;
use nfsdav::resolve::resolved;
use nfsdav::run::Call;
use nfsdav::run::Entry;
use nfsdav::run::FsCall;
use nfsdav::run::FsReply;
use nfsdav::run::Reply;
use nfsdav::run::Run;
use nfsdav::run::Step;

const READ: OpenOptions =
    OpenOptions { write: false, truncate: false, create: false, create_new: false };

fn attr(kind: FileKind, size: u64) -> FileAttr {
    let time = NfsTime { seconds: 0, nseconds: 0 };
    FileAttr { kind, mode: 0o644, size, atime: time, mtime: time, ctime: time }
}

/// Runs an operation on given replies. Returns what it asked for and, where it is done, its
/// result.
fn play<R: Run>(
    mut step: Step<R, R::Output>,
    replies: Vec<FsReply>,
) -> (Vec<FsCall>, Option<Result<R::Output, FsError>>) {
    let mut asked = vec![];
    for reply in replies {
        match step {
            Step::Ask(run, call) => {
                asked.push(call);
                assert!(run.accepts(&reply));
                step = run.resume(reply);
            }
            Step::Done(_) => panic!("a reply that was not asked for"),
        }
    }
    match step {
        Step::Ask(_, call) => {
            asked.push(call);
            (asked, None)
        }
        Step::Done(result) => (asked, Some(result)),
    }
}

fn dav() -> MirrorDavFS<u8> {
    MirrorDavFS::new(7)
}

/// Runs the opening of a file on given replies; an opened file is its tree, its id and its
/// position.
fn play_open(
    step: Step<OpenRun<u8>, MirrorDavFile<u8>>,
    replies: Vec<FsReply>,
) -> (Vec<FsCall>, Option<Result<(u8, u64, u64), FsError>>) {
    let (asked, result) = play(step, replies);
    (asked, result.map(|done| done.map(|file| (*file.backend(), file.id, file.offset))))
}

fn lookup(path: &[u8]) -> FsCall {
    Call::PathToId { path: path.to_vec() }
}

#[test]
fn file_system_shares_its_tree() {
    let dav = dav();
    assert_eq!(*dav.backend(), 7);
    assert_eq!(*dav.clone().backend(), 7);
}

#[test]
fn root_is_not_looked_up() {
    assert_eq!(resolve_path(b"/"), Call::RootDir);
    assert_eq!(resolve_path(b""), Call::RootDir);
    assert_eq!(resolve_path(b"/a"), lookup(b"/a"));
}

#[test]
fn lookup_tells_missing_from_refused() {
    assert_eq!(resolved(&Reply::Id(5)), Ok(Some(5)));
    assert_eq!(resolved(&Reply::Refused(NfsStatus::NoEnt)), Ok(None));
    assert_eq!(resolved(&Reply::Refused(NfsStatus::NotDir)), Err(FsError::Forbidden));
}

#[test]
fn open_an_existing_file() {
    let (asked, result) = play_open(
        dav().open(b"/a", READ),
        vec![Reply::Id(5), Reply::Attr(attr(FileKind::Regular, 9))],
    );
    assert_eq!(asked, vec![lookup(b"/a"), Call::GetAttr { id: 5 }]);
    assert_eq!(result, Some(Ok((7, 5, 0))));
}

#[test]
fn open_empties_a_file_that_will_be_written() {
    let options = OpenOptions { write: true, truncate: true, ..READ };
    let (asked, result) = play_open(
        dav().open(b"/a", options),
        vec![
            Reply::Id(5),
            Reply::Attr(attr(FileKind::Symlink, 9)),
            Reply::Attr(attr(FileKind::Symlink, 0)),
        ],
    );
    let empty = SetAttr { size: Some(0), atime: None, mtime: None };
    assert_eq!(asked[2], Call::SetAttr { id: 5, attr: empty });
    assert_eq!(result, Some(Ok((7, 5, 0))));
}

#[test]
fn open_does_not_empty_a_file_that_is_only_read() {
    let options = OpenOptions { truncate: true, ..READ };
    let (asked, result) = play_open(
        dav().open(b"/a", options),
        vec![Reply::Id(5), Reply::Attr(attr(FileKind::Regular, 9))],
    );
    assert_eq!(asked.len(), 2);
    assert_eq!(result, Some(Ok((7, 5, 0))));
}

#[test]
fn open_creates_a_missing_file() {
    let options = OpenOptions { write: true, create: true, ..READ };
    let (asked, result) = play_open(
        dav().open(b"/dir/new", options),
        vec![
            Reply::Refused(NfsStatus::NoEnt),
            Reply::Id(2),
            Reply::Created(8, attr(FileKind::Regular, 0)),
            Reply::Attr(attr(FileKind::Regular, 0)),
        ],
    );
    assert_eq!(
        asked,
        vec![
            lookup(b"/dir/new"),
            lookup(b"/dir"),
            Call::Create { dir: 2, name: b"new".to_vec(), attr: SetAttr::default() },
            Call::GetAttr { id: 8 },
        ]
    );
    assert_eq!(result, Some(Ok((7, 8, 0))));
}

#[test]
fn open_creates_in_the_root() {
    let options = OpenOptions { create_new: true, ..READ };
    let (asked, _) = play_open(dav().open(b"/new", options), vec![Reply::Refused(NfsStatus::NoEnt)]);
    assert_eq!(asked[1], Call::RootDir);
}

#[test]
fn open_refuses_to_create_anew() {
    let options = OpenOptions { create: true, create_new: true, ..READ };
    let (asked, result) = play_open(dav().open(b"/a", options), vec![Reply::Id(5)]);
    assert_eq!(asked.len(), 1);
    assert_eq!(result, Some(Err(FsError::Exists)));
}

#[test]
fn open_does_not_find_a_missing_file() {
    let (_, result) = play_open(dav().open(b"/a", READ), vec![Reply::Refused(NfsStatus::NoEnt)]);
    assert_eq!(result, Some(Err(FsError::NotFound)));
}

#[test]
fn open_refuses_a_directory() {
    let options = OpenOptions { write: true, truncate: true, ..READ };
    let (_, result) = play_open(
        dav().open(b"/", options),
        vec![Reply::Id(1), Reply::Attr(attr(FileKind::Directory, 0))],
    );
    assert_eq!(result, Some(Err(FsError::Forbidden)));
}

#[test]
fn open_does_not_find_a_missing_directory() {
    let options = OpenOptions { create: true, ..READ };
    let (_, result) = play_open(
        dav().open(b"/no/new", options),
        vec![Reply::Refused(NfsStatus::NoEnt), Reply::Refused(NfsStatus::NoEnt)],
    );
    assert_eq!(result, Some(Err(FsError::NotFound)));
}

#[test]
fn open_ends_at_each_refusal() {
    let options = OpenOptions { write: true, truncate: true, create: true, create_new: false };
    let good = |n: usize| -> Vec<FsReply> {
        let all: Vec<FsReply> = vec![
            Reply::Refused(NfsStatus::NoEnt),
            Reply::Id(2),
            Reply::Created(8, attr(FileKind::Regular, 0)),
            Reply::Attr(attr(FileKind::Regular, 0)),
        ];
        all.into_iter().take(n).collect()
    };
    for n in 0..5 {
        let mut replies = good(n);
        replies.push(Reply::Refused(NfsStatus::Acces));
        let (_, result) = play_open(dav().open(b"/d/f", options), replies);
        assert_eq!(result, Some(Err(FsError::Forbidden)));
    }
}

#[test]
fn metadata_of_a_path() {
    let (asked, result) = play(
        dav().metadata(b"/a"),
        vec![Reply::Id(5), Reply::Attr(attr(FileKind::Regular, 9))],
    );
    assert_eq!(asked, vec![lookup(b"/a"), Call::GetAttr { id: 5 }]);
    assert_eq!(result.unwrap().unwrap().attr, attr(FileKind::Regular, 9));
    let (_, result) = play(dav().metadata(b"/a"), vec![Reply::Refused(NfsStatus::NoEnt)]);
    assert_eq!(result, Some(Err(FsError::NotFound)));
}

#[test]
fn listing_of_a_directory() {
    let entries = vec![
        Entry { fileid: 9, name: b"z".to_vec(), attr: attr(FileKind::Regular, 1) },
        Entry { fileid: 3, name: b"a".to_vec(), attr: attr(FileKind::Directory, 2) },
    ];
    let (asked, result) =
        play(dav().read_dir(b"/d"), vec![Reply::Id(5), Reply::Entries(entries, false)]);
    assert_eq!(asked[1], Call::ReadDir { id: 5, start_after: 0, max_entries: 10000 });
    let mut stream = result.unwrap().ok().unwrap();
    let first = stream.poll_next().unwrap().unwrap();
    assert_eq!((first.name(), first.attr), (b"z".to_vec(), attr(FileKind::Regular, 1)));
    let second = stream.poll_next().unwrap().unwrap();
    assert_eq!((second.name(), second.attr), (b"a".to_vec(), attr(FileKind::Directory, 2)));
    assert_eq!(stream.poll_next(), None);
}

#[test]
fn listing_of_a_file_is_refused() {
    let (_, result) = play(
        dav().read_dir(b"/f"),
        vec![Reply::Id(5), Reply::Refused(NfsStatus::NotDir)],
    );
    assert!(matches!(result, Some(Err(FsError::Forbidden))));
}

#[test]
fn make_a_directory() {
    let (asked, result) = play(
        dav().create_dir(b"/a/b/"),
        vec![Reply::Id(4), Reply::Created(6, attr(FileKind::Directory, 0))],
    );
    assert_eq!(asked, vec![lookup(b"/a"), Call::MakeDir { dir: 4, name: b"b".to_vec() }]);
    assert_eq!(result, Some(Ok(())));
    let (_, result) = play(
        dav().create_dir(b"/a"),
        vec![Reply::Id(1), Reply::Refused(NfsStatus::Exist)],
    );
    assert_eq!(result, Some(Err(FsError::Exists)));
}

#[test]
fn remove_an_entry() {
    let (asked, result) = play(dav().remove_file(b"/a/f"), vec![Reply::Id(4), Reply::Done]);
    assert_eq!(asked, vec![lookup(b"/a"), Call::Remove { dir: 4, name: b"f".to_vec() }]);
    assert_eq!(result, Some(Ok(())));
    let (asked, result) = play(
        dav().remove_dir(b"/d"),
        vec![Reply::Id(1), Reply::Refused(NfsStatus::NotEmpty)],
    );
    assert_eq!(asked, vec![Call::RootDir, Call::Remove { dir: 1, name: b"d".to_vec() }]);
    assert_eq!(result, Some(Err(FsError::GeneralFailure)));
}

#[test]
fn rename_looks_up_both_directories() {
    let (asked, result) = play(
        dav().rename(b"/a/x", b"/b/y"),
        vec![Reply::Id(4), Reply::Id(5), Reply::Done],
    );
    assert_eq!(
        asked,
        vec![
            lookup(b"/a"),
            lookup(b"/b"),
            Call::Rename {
                from_dir: 4,
                from_name: b"x".to_vec(),
                to_dir: 5,
                to_name: b"y".to_vec(),
            },
        ]
    );
    assert_eq!(result, Some(Ok(())));
    let (_, result) = play(
        dav().rename(b"/a/x", b"/b/y"),
        vec![Reply::Id(4), Reply::Refused(NfsStatus::NoEnt)],
    );
    assert_eq!(result, Some(Err(FsError::NotFound)));
}

#[test]
fn set_the_times() {
    let time = EpochTime { secs: (1 << 32) + 9, nanos: 8 };
    let kept = Some(NfsTime { seconds: 9, nseconds: 8 });
    let (asked, result) = play(
        dav().set_modified(b"/a", Some(time)),
        vec![Reply::Id(5), Reply::Attr(attr(FileKind::Regular, 0))],
    );
    let change = SetAttr { size: None, atime: None, mtime: kept };
    assert_eq!(asked[1], Call::SetAttr { id: 5, attr: change });
    assert_eq!(result, Some(Ok(())));
    let (asked, _) = play(dav().set_accessed(b"/a", Some(time)), vec![Reply::Id(5)]);
    let change = SetAttr { size: None, atime: kept, mtime: None };
    assert_eq!(asked[1], Call::SetAttr { id: 5, attr: change });
}

#[test]
fn time_before_the_epoch_changes_nothing() {
    let (asked, result) = play(
        dav().set_modified(b"/a", None),
        vec![Reply::Id(5), Reply::Attr(attr(FileKind::Regular, 0))],
    );
    assert_eq!(asked[1], Call::SetAttr { id: 5, attr: SetAttr::default() });
    assert_eq!(result, Some(Ok(())));
}

#[test]
fn copy_asks_for_pieces_of_one_mebibyte() {
    let (asked, result) = play(
        dav().copy(b"/a/f", b"/b/g"),
        vec![
            Reply::Id(4),
            Reply::Id(5),
            Reply::Created(6, attr(FileKind::Regular, 0)),
            Reply::Data(b"abc".to_vec(), false),
            Reply::Attr(attr(FileKind::Regular, 3)),
            Reply::Data(b"de".to_vec(), true),
            Reply::Attr(attr(FileKind::Regular, 5)),
        ],
    );
    assert_eq!(
        asked,
        vec![
            lookup(b"/a/f"),
            lookup(b"/b"),
            Call::Create { dir: 5, name: b"g".to_vec(), attr: SetAttr::default() },
            Call::Read { id: 4, offset: 0, count: 1048576 },
            Call::Write { id: 6, offset: 0, data: Bytes::from_static(b"abc") },
            Call::Read { id: 4, offset: 3, count: 1048576 },
            Call::Write { id: 6, offset: 3, data: Bytes::from_static(b"de") },
        ]
    );
    assert_eq!(result, Some(Ok(())));
}

#[test]
fn copy_ends_at_an_empty_piece() {
    let (asked, result) = play(
        dav().copy(b"/f", b"/g"),
        vec![
            Reply::Id(4),
            Reply::Id(1),
            Reply::Created(6, attr(FileKind::Regular, 0)),
            Reply::Data(vec![], false),
        ],
    );
    assert_eq!(asked.len(), 4);
    assert_eq!(result, Some(Ok(())));
}

#[test]
fn copy_ends_at_each_refusal() {
    for n in 0..7 {
        let all: Vec<FsReply> = vec![
            Reply::Id(4),
            Reply::Id(5),
            Reply::Created(6, attr(FileKind::Regular, 0)),
            Reply::Data(b"abc".to_vec(), false),
            Reply::Attr(attr(FileKind::Regular, 3)),
            Reply::Data(b"de".to_vec(), true),
        ];
        let mut replies: Vec<FsReply> = all.into_iter().take(n).collect();
        replies.push(Reply::Refused(NfsStatus::NotSupp));
        let (_, result) = play(dav().copy(b"/f", b"/g"), replies);
        assert_eq!(result, Some(Err(FsError::NotImplemented)));
    }
}

/// A file tree in memory: all files are in the root directory, whose id is 1.
struct Memory {
    names: BTreeMap<Vec<u8>, u64>,
    files: BTreeMap<u64, Vec<u8>>,
    piece: usize,
}

impl Memory {
    fn serve(&mut self, call: FsCall) -> FsReply {
        match call {
            Call::RootDir => Reply::Id(1),
            Call::PathToId { path } => match self.names.get(&path[1..]) {
                Some(id) => Reply::Id(*id),
                None => Reply::Refused(NfsStatus::NoEnt),
            },
            Call::GetAttr { id } => {
                Reply::Attr(attr(FileKind::Regular, self.files[&id].len() as u64))
            }
            Call::SetAttr { id, attr: change } => {
                if let Some(size) = change.size {
                    self.files.get_mut(&id).unwrap().resize(size as usize, 0);
                }
                Reply::Attr(attr(FileKind::Regular, self.files[&id].len() as u64))
            }
            Call::Create { dir, name, .. } => {
                assert_eq!(dir, 1);
                let new = 10 + self.files.len() as u64;
                let id = *self.names.entry(name).or_insert(new);
                let len = self.files.entry(id).or_default().len() as u64;
                Reply::Created(id, attr(FileKind::Regular, len))
            }
            Call::Read { id, offset, count } => {
                let file = &self.files[&id];
                let from = (offset as usize).min(file.len());
                let to = file.len().min(from + self.piece.min(count as usize));
                Reply::Data(file[from..to].to_vec(), to == file.len())
            }
            Call::Write { id, offset, data } => {
                let file = self.files.get_mut(&id).unwrap();
                let end = offset as usize + data.len();
                if file.len() < end {
                    file.resize(end, 0);
                }
                file[offset as usize..end].copy_from_slice(&data);
                Reply::Attr(attr(FileKind::Regular, file.len() as u64))
            }
            _ => Reply::Refused(NfsStatus::NotSupp),
        }
    }

    fn run<R: Run>(&mut self, mut step: Step<R, R::Output>) -> Result<R::Output, FsError> {
        loop {
            match step {
                Step::Ask(run, call) => {
                    let reply = self.serve(call);
                    assert!(run.accepts(&reply));
                    step = run.resume(reply);
                }
                Step::Done(result) => return result,
            }
        }
    }
}

#[test]
fn copy_holds_what_the_file_holds() {
    for piece in [1, 3, 7, 1000] {
        let mut tree = Memory { names: BTreeMap::new(), files: BTreeMap::new(), piece };
        let contents: Vec<u8> = (0..100).map(|i| (i * 7 % 251) as u8).collect();
        tree.names.insert(b"f".to_vec(), 5);
        tree.files.insert(5, contents.clone());
        assert_eq!(tree.run(dav().copy(b"/f", b"/g")), Ok(()));
        let copy = tree.names[&b"g"[..]];
        assert_ne!(copy, 5);
        assert_eq!(tree.files[&copy], contents);
        assert_eq!(tree.files[&5], contents);
    }
}

#[test]
fn copy_overwrites_what_is_there_from_its_start() {
    let mut tree = Memory { names: BTreeMap::new(), files: BTreeMap::new(), piece: 2 };
    tree.names.insert(b"f".to_vec(), 5);
    tree.files.insert(5, b"new".to_vec());
    tree.names.insert(b"g".to_vec(), 6);
    tree.files.insert(6, b"older".to_vec());
    assert_eq!(tree.run(dav().copy(b"/f", b"/g")), Ok(()));
    assert_eq!(tree.files[&6], b"newer".to_vec());
}

#[test]
fn what_was_written_is_read_after_going_back() {
    let mut tree = Memory { names: BTreeMap::new(), files: BTreeMap::new(), piece: 4 };
    let options = OpenOptions { write: true, truncate: false, create: true, create_new: true };
    let mut file = tree.run(dav().open(b"/f", options)).unwrap();
    let (call, pending) = file.write_bytes(Bytes::from_static(b"abcdef"));
    let reply = tree.serve(call);
    assert_eq!(file.write_done(pending, reply), Ok(()));
    let reply = tree.serve(file.seek());
    assert_eq!(file.seek_done(SeekFrom::Start(0), reply), Ok(0));
    let reply = tree.serve(file.read_bytes(6));
    assert_eq!(file.read_done(reply), Ok(Bytes::from_static(b"abcd")));
    let reply = tree.serve(file.read_bytes(6));
    assert_eq!(file.read_done(reply), Ok(Bytes::from_static(b"ef")));
}

#[test]
fn written_file_is_read_back() {
    let mut tree = Memory { names: BTreeMap::new(), files: BTreeMap::new(), piece: 1000 };
    let options = OpenOptions { write: true, truncate: true, create: true, create_new: false };
    let mut file = tree.run(dav().open(b"/new.txt", options)).unwrap();
    for part in [&b"hello "[..], b"world"] {
        let (call, pending) = file.write_bytes(Bytes::copy_from_slice(part));
        let reply = tree.serve(call);
        assert_eq!(file.write_done(pending, reply), Ok(()));
    }
    let mut file = tree.run(dav().open(b"/new.txt", READ)).unwrap();
    let reply = tree.serve(file.read_bytes(100));
    assert_eq!(file.read_done(reply), Ok(Bytes::from_static(b"hello world")));
    assert_eq!(file.offset, 11);
    let file = tree.run(dav().open(b"/new.txt", options)).unwrap();
    assert_eq!(tree.files[&file.id], b"".to_vec());
}

#[test]
fn reply_of_another_form_ends_an_operation() {
    let (_, result) = play(dav().metadata(b"/a"), vec![Reply::Done]);
    assert_eq!(result, Some(Err(FsError::GeneralFailure)));
}
