use columnar_core::error::ErrorKind;
use columnar_core::user::add_user_result;
use columnar_core::user::collect_users;
use columnar_core::user::drop_user_result;
use columnar_core::user::get_user_match;
use columnar_core::user::prepend;
use columnar_core::user::update_user_compute;
use columnar_core::user::UserInfo;
use columnar_core::user::UserMgr;
use sha2::Digest;

#[test]
fn test_user_info_digests() {
    let info = UserInfo::create("test", "password", "salt");
    assert_eq!(info.name, "test");
    // a fixed reference digest of "password"
    let expected: [u8; 32] = [
        0x5e, 0x88, 0x48, 0x98, 0xda, 0x28, 0x04, 0x71, 0x51, 0xd0, 0xe5, 0x6f, 0x8d, 0xc6, 0x29,
        0x27, 0x73, 0x60, 0x3d, 0x0d, 0x6a, 0xab, 0xbd, 0xd6, 0x2a, 0x11, 0xef, 0x72, 0x1d, 0x15,
        0x42, 0xd8,
    ];
    assert_eq!(info.password_sha256, expected.to_vec());
    let salt_expected: Vec<u8> = sha2::Sha256::digest(b"salt").to_vec();
    assert_eq!(info.salt_sha256, salt_expected);
}

#[test]
fn test_prepend_key() {
    assert_eq!(prepend("test"), "__fd_users/test");
}

#[test]
fn test_user_mgr_holds_store_handle() {
    let mgr = UserMgr::new(7u32);
    assert_eq!(mgr.kv_api, 7);
}

#[test]
fn test_add_user_result_cases() {
    assert_eq!(add_user_result(None, Some((3, vec![1]))).unwrap(), 3);
    let err = add_user_result(Some((2, vec![1])), None).unwrap_err();
    assert_eq!(err.kind, ErrorKind::UserAlreadyExists);
    assert_eq!(err.message(), "user already exists, seq [2]");
    let err = add_user_result(Some((1234567890, vec![])), None).unwrap_err();
    assert_eq!(err.message(), "user already exists, seq [1234567890]");
    let err = add_user_result(None, None).unwrap_err();
    assert_eq!(err.kind, ErrorKind::UnknownException);
    let err = add_user_result(Some((1, vec![])), Some((2, vec![]))).unwrap_err();
    assert_eq!(err.kind, ErrorKind::UnknownException);
}

#[test]
fn test_get_user_match_cases() {
    let v = Some((5, vec![9, 9]));
    assert_eq!(get_user_match("u", None, v.clone()).unwrap(), (5, vec![9, 9]));
    assert_eq!(get_user_match("u", Some(5), v.clone()).unwrap(), (5, vec![9, 9]));
    let err = get_user_match("u", Some(4), v).unwrap_err();
    assert_eq!(err.kind, ErrorKind::UnknownUser);
    assert_eq!(err.message(), "unknown user u");
    let err = get_user_match("u", None, None).unwrap_err();
    assert_eq!(err.kind, ErrorKind::UnknownUser);
}

#[test]
fn test_collect_users() {
    let a = UserInfo::create("a", "p", "s");
    let b = UserInfo::create("b", "p", "s");
    let out = collect_users(vec![(1, Some(a)), (2, Some(b))]).unwrap();
    assert_eq!(out.len(), 2);
    assert_eq!(out[0].0, 1);
    assert_eq!(out[0].1.name, "a");
    assert_eq!(out[1].1.name, "b");

    let bad = collect_users(vec![(1, Some(UserInfo::create("a", "p", "s"))), (2, None)]);
    assert_eq!(bad.unwrap_err().kind, ErrorKind::IllegalUserInfoFormat);
}

#[test]
fn test_update_user_compute_partial() {
    let existing = UserInfo::create("old", "password", "salt");
    let kept_salt = existing.salt_sha256.clone();

    let updated = update_user_compute("old", existing, Some("newpass"), None);
    assert_eq!(updated.name, "old");
    assert_eq!(
        updated.password_sha256,
        sha2::Sha256::digest(b"newpass").to_vec()
    );
    assert_eq!(updated.salt_sha256, kept_salt);
}

#[test]
fn test_drop_user_result_cases() {
    assert!(drop_user_result("u", true).is_ok());
    let err = drop_user_result("u", false).unwrap_err();
    assert_eq!(err.kind, ErrorKind::UnknownUser);
}

#[test]
fn test_collect_user_lookups() {
    let a = UserInfo::create("a", "p", "s");
    let out = columnar_core::user::collect_user_lookups(vec![
        Some((1, Some(a))),
        None,
    ])
    .unwrap();
    assert_eq!(out.len(), 2);
    assert_eq!(out[0].as_ref().unwrap().0, 1);
    assert!(out[1].is_none());

    let bad = columnar_core::user::collect_user_lookups(vec![Some((1, None))]);
    assert_eq!(bad.unwrap_err().kind, ErrorKind::IllegalUserInfoFormat);
}
