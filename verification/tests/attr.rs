use nfsdav::attr::keep_time;
use nfsdav::attr::read_time;
use nfsdav::attr::EpochTime;
use nfsdav::attr::FileAttr;
use nfsdav::attr::FileKind;
use nfsdav::attr::MirrorDavMetaData;
use nfsdav::attr::NfsTime;
use nfsdav::attr::SetAttr;

fn attr(kind: FileKind, mode: u32) -> FileAttr {
    FileAttr {
        kind,
        mode,
        size: 4711,
        atime: NfsTime { seconds: 10, nseconds: 1 },
        mtime: NfsTime { seconds: 20, nseconds: 2 },
        ctime: NfsTime { seconds: 30, nseconds: 3 },
    }
}

#[test]
fn metadata_of_a_regular_file() {
    let meta = MirrorDavMetaData { attr: attr(FileKind::Regular, 0o644) };
    assert_eq!(meta.len(), 4711);
    assert!(meta.is_file() && !meta.is_dir() && !meta.is_symlink());
    assert_eq!(meta.accessed(), Ok(EpochTime { secs: 10, nanos: 1 }));
    assert_eq!(meta.modified(), Ok(EpochTime { secs: 20, nanos: 2 }));
    assert_eq!(meta.status_changed(), Ok(EpochTime { secs: 30, nanos: 3 }));
}

#[test]
fn metadata_of_a_directory_and_of_a_link() {
    let dir = MirrorDavMetaData { attr: attr(FileKind::Directory, 0o755) };
    assert!(!dir.is_file() && dir.is_dir() && !dir.is_symlink());
    let link = MirrorDavMetaData { attr: attr(FileKind::Symlink, 0o777) };
    assert!(!link.is_file() && !link.is_dir() && link.is_symlink());
    let fifo = MirrorDavMetaData { attr: attr(FileKind::Fifo, 0) };
    assert!(!fifo.is_file() && !fifo.is_dir() && !fifo.is_symlink());
}

#[test]
fn any_execute_bit_makes_a_file_executable() {
    for (mode, yes) in [(0o100, true), (0o010, true), (0o001, true), (0o666, false), (0, false)] {
        let meta = MirrorDavMetaData { attr: attr(FileKind::Regular, mode) };
        assert_eq!(meta.executable(), Ok(yes));
    }
}

#[test]
fn nanoseconds_beyond_a_second_carry() {
    let time = NfsTime { seconds: u32::MAX, nseconds: u32::MAX };
    assert_eq!(read_time(time), EpochTime { secs: 4_294_967_299, nanos: 294_967_295 });
}

#[test]
fn time_that_fits_is_read_back() {
    let time = EpochTime { secs: 1_700_000_000, nanos: 123_456_789 };
    assert_eq!(keep_time(time), NfsTime { seconds: 1_700_000_000, nseconds: 123_456_789 });
    assert_eq!(read_time(keep_time(time)), time);
}

#[test]
fn seconds_wrap_at_thirty_two_bits() {
    let time = EpochTime { secs: (1 << 32) + 5, nanos: 7 };
    assert_eq!(keep_time(time), NfsTime { seconds: 5, nseconds: 7 });
}

#[test]
fn default_change_changes_nothing() {
    assert_eq!(SetAttr::default(), SetAttr { size: None, atime: None, mtime: None });
}
