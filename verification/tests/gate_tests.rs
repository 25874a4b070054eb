use create_file::gate::check;
use create_file::gate::PermissionDenied;

#[test]
fn the_private_root_needs_no_authorization() {
    assert_eq!(check(false, false), Ok(()));
    assert_eq!(check(false, true), Ok(()));
}

#[test]
fn the_shared_root_needs_shared_access() {
    assert_eq!(check(true, true), Ok(()));
    assert_eq!(check(true, false), Err(PermissionDenied));
}
