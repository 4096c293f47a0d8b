use frr::error::{ErrorKind, FrrError};

#[test]
fn every_error_names_its_subject() {
    let d = FrrError::directory_access("/r/locked", "permission denied");
    assert_eq!(d.kind, ErrorKind::DirectoryAccess);
    assert_eq!(d.message(), "Could not enter '/r/locked': permission denied");
    let f = FrrError::file_access("/r/a.txt", "not found");
    assert_eq!(f.kind, ErrorKind::FileAccess);
    assert_eq!(f.message(), "Could not access file '/r/a.txt': not found");
    let p = FrrError::pattern_not_found("/r/b.txt");
    assert_eq!(p.kind, ErrorKind::PatternNotFound);
    assert_eq!(p.message(), "Pattern not found in file '/r/b.txt'");
    let n = FrrError::no_matches();
    assert_eq!(n.kind, ErrorKind::NoMatchesInBatch);
    assert_eq!(n.message(), "Nothing found");
}
