use nfsdav::error::map_nfs_err;
use nfsdav::error::FsError;
use nfsdav::error::NfsStatus;

#[test]
fn statuses_with_an_error_of_their_own() {
    assert_eq!(map_nfs_err(NfsStatus::NoEnt), FsError::NotFound);
    assert_eq!(map_nfs_err(NfsStatus::Exist), FsError::Exists);
    assert_eq!(map_nfs_err(NfsStatus::Acces), FsError::Forbidden);
    assert_eq!(map_nfs_err(NfsStatus::NotDir), FsError::Forbidden);
    assert_eq!(map_nfs_err(NfsStatus::IsDir), FsError::Forbidden);
    assert_eq!(map_nfs_err(NfsStatus::Io), FsError::GeneralFailure);
    assert_eq!(map_nfs_err(NfsStatus::NotSupp), FsError::NotImplemented);
    assert_eq!(map_nfs_err(NfsStatus::Rofs), FsError::Forbidden);
}

#[test]
fn other_statuses_are_general_failures() {
    for status in [
        NfsStatus::Success,
        NfsStatus::Perm,
        NfsStatus::Nxio,
        NfsStatus::Xdev,
        NfsStatus::NoDev,
        NfsStatus::Inval,
        NfsStatus::Fbig,
        NfsStatus::NoSpc,
        NfsStatus::Mlink,
        NfsStatus::NameTooLong,
        NfsStatus::NotEmpty,
        NfsStatus::Dquot,
        NfsStatus::Stale,
        NfsStatus::Remote,
        NfsStatus::BadHandle,
        NfsStatus::NotSync,
        NfsStatus::BadCookie,
        NfsStatus::TooSmall,
        NfsStatus::ServerFault,
        NfsStatus::BadType,
        NfsStatus::Jukebox,
    ] {
        assert_eq!(map_nfs_err(status), FsError::GeneralFailure);
    }
}
