use nfsdav::path::filename_from_path;
use nfsdav::path::is_root;
use nfsdav::path::parent_path;

#[test]
fn nested_path_splits_at_its_last_slash() {
    assert_eq!(parent_path(b"/a/b/c.txt"), b"/a/b".to_vec());
    assert_eq!(filename_from_path(b"/a/b/c.txt"), b"c.txt".to_vec());
}

#[test]
fn entry_of_the_root_has_the_root_as_parent() {
    assert_eq!(parent_path(b"/a"), b"/".to_vec());
    assert_eq!(filename_from_path(b"/a"), b"a".to_vec());
}

#[test]
fn path_without_slash_is_in_the_root() {
    assert_eq!(parent_path(b"a"), b"/".to_vec());
    assert_eq!(filename_from_path(b"a"), b"a".to_vec());
}

#[test]
fn root_is_its_own_parent_and_has_no_name() {
    assert_eq!(parent_path(b"/"), b"/".to_vec());
    assert_eq!(filename_from_path(b"/"), b"".to_vec());
    assert_eq!(parent_path(b""), b"/".to_vec());
    assert_eq!(filename_from_path(b""), b"".to_vec());
    assert_eq!(parent_path(b"///"), b"/".to_vec());
    assert_eq!(filename_from_path(b"///"), b"".to_vec());
}

#[test]
fn trailing_slashes_do_not_count() {
    assert_eq!(parent_path(b"/a/b//"), b"/a".to_vec());
    assert_eq!(filename_from_path(b"/a/b//"), b"b".to_vec());
}

#[test]
fn doubled_slash_inside_stays_with_the_parent() {
    assert_eq!(parent_path(b"/a//b"), b"/a/".to_vec());
    assert_eq!(filename_from_path(b"/a//b"), b"b".to_vec());
    assert_eq!(parent_path(b"//b"), b"/".to_vec());
}

#[test]
fn splitting_undoes_joining() {
    for dir in [&b"x"[..], b"/x", b"/x/", b"x/y/z"] {
        let mut path = dir.to_vec();
        path.push(b'/');
        path.extend_from_slice(b"name");
        assert_eq!(parent_path(&path), dir.to_vec());
        assert_eq!(filename_from_path(&path), b"name".to_vec());
    }
}

#[test]
fn parts_rejoin_to_the_path() {
    let path = b"/usr/share/doc";
    let mut joined = parent_path(path);
    joined.push(b'/');
    joined.extend(filename_from_path(path));
    assert_eq!(joined, path.to_vec());
    assert!(!filename_from_path(path).contains(&b'/'));
    assert!(!parent_path(b"//").is_empty());
}

#[test]
fn only_slash_and_nothing_name_the_root() {
    assert!(is_root(b"/"));
    assert!(is_root(b""));
    assert!(!is_root(b"//"));
    assert!(!is_root(b"a"));
}
