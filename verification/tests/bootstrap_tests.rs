use hamster_auth::authentication::Authentication;
use hamster_auth::bootstrap::{needs_description_update, parse_user_info, split_str};
use hamster_auth::error::ErrorKind;
use hamster_auth::utils::{authenticate_user, avatar_url, hash_password, random_avatar,
    verify_password, UserRecord};

#[test]
fn test_parse_user_info() {
    let (nickname, password, groups) = parse_user_info("Bob|123456|admin,user").unwrap();

    assert_eq!("Bob", nickname);
    assert_eq!("123456", password);
    assert_eq!(vec!["admin".to_string(), "user".to_string()], groups);
}

#[test]
fn test_parse_user_info_without_groups() {
    let (nickname, password, groups) = parse_user_info("Bob|123456").unwrap();
    assert_eq!("Bob", nickname);
    assert_eq!("123456", password);
    assert!(groups.is_empty());
}

#[test]
fn test_parse_user_info_rejects_wrong_shapes() {
    assert_eq!(parse_user_info("Bob").unwrap_err().kind(), ErrorKind::BootstrapError);
    assert_eq!(parse_user_info("a|b|c|d").unwrap_err().kind(), ErrorKind::BootstrapError);
}

#[test]
fn test_split_edges() {
    assert_eq!(split_str("", '|'), vec!["".to_string()]);
    assert_eq!(split_str("a|", '|'), vec!["a".to_string(), "".to_string()]);
    assert_eq!(split_str("|a", '|'), vec!["".to_string(), "a".to_string()]);
    assert_eq!(
        split_str("a,,b", ','),
        vec!["a".to_string(), "".to_string(), "b".to_string()]
    );
}

#[test]
fn test_needs_description_update() {
    assert!(needs_description_update(&None, "x"));
    assert!(needs_description_update(&Some("y".to_string()), "x"));
    assert!(!needs_description_update(&Some("x".to_string()), "x"));
}

#[test]
fn test_password_hash_verifies() {
    let h = hash_password("123456").unwrap();
    assert!(verify_password("123456", &h).unwrap());
    assert!(!verify_password("wrong", &h).unwrap());
}

#[test]
fn test_verify_password_rejects_malformed_hash() {
    let e = verify_password("123456", "not a bcrypt hash").unwrap_err();
    assert_eq!(e.kind(), ErrorKind::HashPasswordFailure);
}

#[test]
fn test_avatar_url_exact() {
    assert_eq!(avatar_url(7), "/api/images/avatars/7.png");
    assert_eq!(avatar_url(20), "/api/images/avatars/20.png");
}

#[test]
fn test_random_avatar_in_range() {
    for _ in 0..50 {
        let url = random_avatar();
        let n: u32 = url
            .strip_prefix("/api/images/avatars/")
            .unwrap()
            .strip_suffix(".png")
            .unwrap()
            .parse()
            .unwrap();
        assert!((1..21).contains(&n));
    }
}

fn user_record(hash: String) -> UserRecord {
    UserRecord {
        id: "3f2b".to_string(),
        username: "bob".to_string(),
        password: hash,
        nickname: "Bob".to_string(),
        avatar_url: "/api/images/avatars/1.png".to_string(),
    }
}

#[test]
fn test_authenticate_user_success() {
    let user = user_record(hash_password("123456").unwrap());
    let a = authenticate_user(&user, "123456", vec!["admin".to_string(), "user".to_string()])
        .unwrap();
    assert_eq!(
        a,
        Authentication::new(
            "3f2b".to_string(),
            vec!["admin".to_string(), "user".to_string()]
        )
    );
}

#[test]
fn test_authenticate_user_wrong_password_is_unauthorized() {
    let user = user_record(hash_password("123456").unwrap());
    let e = authenticate_user(&user, "654321", vec!["user".to_string()]).unwrap_err();
    assert_eq!(e.kind(), ErrorKind::Unauthorized);
    assert_eq!(e.status_code(), 401);
}

#[test]
fn test_authenticate_user_bad_stored_hash_is_hash_failure() {
    let user = user_record("corrupted".to_string());
    let e = authenticate_user(&user, "123456", vec![]).unwrap_err();
    assert_eq!(e.kind(), ErrorKind::HashPasswordFailure);
}
