use bytes::Bytes;
use nfsdav::attr::FileAttr;
use nfsdav::attr::FileKind;
use nfsdav::attr::MirrorDavMetaData;
use nfsdav::attr::NfsTime;
use nfsdav::error::FsError;
use nfsdav::error::NfsStatus;
use nfsdav::file::MirrorDavFile;
use nfsdav::file::PendingWrite;
use nfsdav::file::SeekFrom;
use nfsdav::fs::MirrorDavFS;
use nfsdav::run::Call;
use nfsdav::run::Reply;

fn file_at(id: u64, offset: u64) -> MirrorDavFile<u8> {
    MirrorDavFile { fs: MirrorDavFS::new(7), id, offset }
}

fn attr_of_size(size: u64) -> FileAttr {
    let time = NfsTime { seconds: 0, nseconds: 0 };
    FileAttr { kind: FileKind::Regular, mode: 0o644, size, atime: time, mtime: time, ctime: time }
}

#[test]
fn write_goes_to_the_position_and_moves_it() {
    let mut file = file_at(3, 10);
    let (call, pending) = file.write_bytes(Bytes::from_static(b"hello"));
    assert_eq!(call, Call::Write { id: 3, offset: 10, data: Bytes::from_static(b"hello") });
    assert_eq!(pending, PendingWrite { len: 5 });
    assert_eq!(file.write_done(pending, Reply::Attr(attr_of_size(15))), Ok(()));
    assert_eq!((*file.backend(), file.id, file.offset), (7, 3, 15));
}

#[test]
fn failed_write_leaves_the_position() {
    let mut file = file_at(3, 10);
    let (_, pending) = file.write_bytes(Bytes::from_static(b"hello"));
    let result = file.write_done(pending, Reply::Refused(NfsStatus::Rofs));
    assert_eq!(result, Err(FsError::Forbidden));
    assert_eq!(file.offset, 10);
}

#[test]
fn read_brings_the_bytes_and_moves_the_position() {
    let mut file = file_at(4, 100);
    assert_eq!(file.read_bytes(8192), Call::Read { id: 4, offset: 100, count: 8192 });
    let data = file.read_done(Reply::Data(b"abc".to_vec(), true));
    assert_eq!(data, Ok(Bytes::from_static(b"abc")));
    assert_eq!(file.offset, 103);
}

#[test]
fn failed_read_leaves_the_position() {
    let mut file = file_at(4, 100);
    let data = file.read_done(Reply::Refused(NfsStatus::Io));
    assert_eq!(data, Err(FsError::GeneralFailure));
    assert_eq!(file.offset, 100);
}

#[test]
fn read_count_wraps_at_thirty_two_bits() {
    let file = file_at(4, 0);
    let count = u32::MAX as usize;
    assert_eq!(file.read_bytes(count), Call::Read { id: 4, offset: 0, count: u32::MAX });
    assert_eq!(
        file.read_bytes(count.wrapping_add(3)),
        Call::Read { id: 4, offset: 0, count: 2 }
    );
}

#[test]
fn position_wraps_at_sixty_four_bits() {
    let mut file = file_at(1, u64::MAX);
    assert_eq!(file.write_done(PendingWrite { len: 2 }, Reply::Attr(attr_of_size(0))), Ok(()));
    assert_eq!(file.offset, 1);
}

#[test]
fn seek_from_the_start() {
    let mut file = file_at(1, 5);
    assert_eq!(file.seek(), Call::GetAttr { id: 1 });
    assert_eq!(file.seek_done(SeekFrom::Start(42), Reply::Attr(attr_of_size(7))), Ok(42));
    assert_eq!(file.offset, 42);
}

#[test]
fn seek_from_the_end() {
    let mut file = file_at(1, 5);
    assert_eq!(file.seek_done(SeekFrom::End(-3), Reply::Attr(attr_of_size(10))), Ok(7));
    assert_eq!(file.seek_done(SeekFrom::End(0), Reply::Attr(attr_of_size(10))), Ok(10));
    assert_eq!(file.seek_done(SeekFrom::End(4), Reply::Attr(attr_of_size(10))), Ok(14));
    assert_eq!(file.seek_done(SeekFrom::End(-11), Reply::Attr(attr_of_size(10))), Ok(0));
    assert_eq!(file.seek_done(SeekFrom::End(i64::MIN), Reply::Attr(attr_of_size(10))), Ok(0));
    assert_eq!(file.offset, 0);
}

#[test]
fn seek_from_the_position() {
    let mut file = file_at(1, 50);
    assert_eq!(file.seek_done(SeekFrom::Current(-20), Reply::Attr(attr_of_size(0))), Ok(30));
    assert_eq!(file.seek_done(SeekFrom::Current(20), Reply::Attr(attr_of_size(0))), Ok(50));
    assert_eq!(file.seek_done(SeekFrom::Current(0), Reply::Attr(attr_of_size(0))), Ok(50));
    assert_eq!(file.seek_done(SeekFrom::Current(-51), Reply::Attr(attr_of_size(0))), Ok(0));
}

#[test]
fn seek_back_by_more_than_half_of_all_offsets() {
    let mut file = file_at(1, u64::MAX);
    let result = file.seek_done(SeekFrom::Current(i64::MIN), Reply::Attr(attr_of_size(0)));
    assert_eq!(result, Ok(u64::MAX - (1 << 63)));
}

#[test]
fn seek_beyond_the_last_offset_is_told_apart() {
    let file = file_at(1, u64::MAX);
    assert!(!file.can_seek(SeekFrom::Current(1), 0));
    assert!(file.can_seek(SeekFrom::Current(0), 0));
    assert!(file.can_seek(SeekFrom::Current(-1), 0));
    assert!(!file.can_seek(SeekFrom::End(1), u64::MAX));
    assert!(file.can_seek(SeekFrom::End(1), u64::MAX - 1));
    assert!(file.can_seek(SeekFrom::Start(u64::MAX), 0));
}

#[test]
fn failed_seek_leaves_the_position() {
    let mut file = file_at(1, 50);
    let result = file.seek_done(SeekFrom::Start(0), Reply::Refused(NfsStatus::NoEnt));
    assert_eq!(result, Err(FsError::NotFound));
    assert_eq!(file.offset, 50);
}

#[test]
fn metadata_of_an_open_file() {
    let file = file_at(9, 0);
    assert_eq!(file.metadata(), Call::GetAttr { id: 9 });
    let meta = file.metadata_done(Reply::Attr(attr_of_size(12)));
    assert_eq!(meta, Ok(MirrorDavMetaData { attr: attr_of_size(12) }));
    let refused = file.metadata_done(Reply::Refused(NfsStatus::Stale));
    assert_eq!(refused, Err(FsError::GeneralFailure));
}

#[test]
fn flush_does_nothing() {
    let mut file = file_at(9, 7);
    assert_eq!(file.flush(), Ok(()));
    assert_eq!((*file.backend(), file.id, file.offset), (7, 9, 7));
}

#[test]
fn writes_in_a_row_join() {
    let mut file = file_at(2, 0);
    let (_, first) = file.write_bytes(Bytes::from_static(b"ab"));
    assert_eq!(file.write_done(first, Reply::Attr(attr_of_size(2))), Ok(()));
    let (call, _) = file.write_bytes(Bytes::from_static(b"cde"));
    assert_eq!(call, Call::Write { id: 2, offset: 2, data: Bytes::from_static(b"cde") });
}

#[test]
fn reply_of_another_form_is_a_general_failure() {
    let mut file = file_at(2, 6);
    assert_eq!(file.read_done(Reply::Done), Err(FsError::GeneralFailure));
    assert_eq!(file.offset, 6);
}

#[test]
fn file_stays_on_its_tree() {
    let mut file = file_at(2, 6);
    assert_eq!(file.write_done(PendingWrite { len: 3 }, Reply::Attr(attr_of_size(9))), Ok(()));
    assert_eq!((*file.backend(), file.id, file.offset), (7, 2, 9));
    assert_eq!(file.read_done(Reply::Data(b"xy".to_vec(), true)), Ok(Bytes::from_static(b"xy")));
    assert_eq!((*file.backend(), file.id, file.offset), (7, 2, 11));
    assert_eq!(file.seek_done(SeekFrom::Start(1), Reply::Attr(attr_of_size(11))), Ok(1));
    assert_eq!((*file.backend(), file.id, file.offset), (7, 2, 1));
}
