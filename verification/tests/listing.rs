use nfsdav::attr::FileAttr;
use nfsdav::attr::FileKind;
use nfsdav::attr::MirrorDavMetaData;
use nfsdav::attr::NfsTime;
use nfsdav::listing::MirrorDavDirEntry;
use nfsdav::listing::MirrorDavStream;

#[test]
fn stream_hands_out_in_order_and_ends() {
    let mut stream = MirrorDavStream { items: vec![1, 2, 3] };
    assert_eq!(stream.poll_next(), Some(Ok(1)));
    assert_eq!(stream.poll_next(), Some(Ok(2)));
    assert_eq!(stream.poll_next(), Some(Ok(3)));
    assert_eq!(stream.poll_next(), None);
    assert_eq!(stream.poll_next(), None);
}

#[test]
fn entry_tells_its_name_and_metadata() {
    let time = NfsTime { seconds: 1, nseconds: 2 };
    let attr = FileAttr {
        kind: FileKind::Directory,
        mode: 0o755,
        size: 0,
        atime: time,
        mtime: time,
        ctime: time,
    };
    let entry = MirrorDavDirEntry { name: b"sub".to_vec(), attr };
    assert_eq!(entry.name(), b"sub".to_vec());
    assert_eq!(entry.metadata(), Ok(MirrorDavMetaData { attr }));
}
