use hamster_auth::authentication::Authentication;
use hamster_auth::cookie::{open_and_decode, CookieAuthenticationBackend};
use hamster_auth::error::DecodeError;
use hamster_auth::http::{Request, Response, SameSite};
use hamster_auth::middleware::AuthenticationBackend;

const KEY: &[u8] = &[7; 32];

fn ident() -> Authentication {
    Authentication::new("u1".to_string(), vec!["user".to_string()])
}

fn backend() -> CookieAuthenticationBackend {
    CookieAuthenticationBackend::new(KEY)
}

fn stored_cookie_value(b: &CookieAuthenticationBackend, a: Option<Authentication>) -> String {
    let mut res = Response::ok();
    b.store(true, a, &mut res).unwrap();
    assert_eq!(res.cookies.len(), 1);
    res.cookies[0].value.clone()
}

fn request_with(name: &str, value: &str) -> Request {
    let mut req = Request::new();
    req.cookies.push((name.to_string(), value.to_string()));
    req
}

#[test]
fn test_store_then_load_round_trip() {
    let b = backend();
    let value = stored_cookie_value(&b, Some(ident()));
    let req = request_with("hamster-auth", &value);
    let loaded = b.load(&req).unwrap().unwrap();
    assert_eq!(loaded, ident());
}

#[test]
fn test_load_without_cookie_is_none() {
    let b = backend();
    assert!(b.load(&Request::new()).unwrap().is_none());
}

#[test]
fn test_load_with_other_cookies_is_none() {
    let b = backend();
    let req = request_with("session", "whatever");
    assert!(b.load(&req).unwrap().is_none());
}

#[test]
fn test_load_malformed_cookie_is_none() {
    let b = backend();
    let req = request_with("hamster-auth", "not a sealed value");
    assert!(b.load(&req).unwrap().is_none());
}

#[test]
fn test_load_wrong_key_is_none() {
    let sealer = CookieAuthenticationBackend::new(&[7; 32]);
    let value = stored_cookie_value(&sealer, Some(ident()));
    let other = CookieAuthenticationBackend::new(&[8; 32]);
    let req = request_with("hamster-auth", &value);
    assert!(other.load(&req).unwrap().is_none());
}

#[test]
fn test_load_wrong_name_binding_is_none() {
    // The cookie name is bound into the seal: the same sealed value under
    // another configured name must not open.
    let b = backend();
    let value = stored_cookie_value(&b, Some(ident()));
    let renamed = CookieAuthenticationBackend::new(KEY).name("other-auth".to_string());
    let req = request_with("other-auth", &value);
    assert!(renamed.load(&req).unwrap().is_none());
}

#[test]
fn test_tampering_any_single_byte_fails() {
    let b = backend();
    let value = stored_cookie_value(&b, Some(ident()));
    let bytes = value.as_bytes();
    for i in 0..bytes.len() {
        let mut tampered = bytes.to_vec();
        tampered[i] = if tampered[i] == b'A' { b'B' } else { b'A' };
        let tampered = String::from_utf8(tampered).unwrap();
        if tampered == value {
            continue;
        }
        let req = request_with("hamster-auth", &tampered);
        assert!(
            b.load(&req).unwrap().is_none(),
            "tampered byte {} still verified",
            i
        );
    }
}

#[test]
fn test_open_and_decode_reports_tampering() {
    let key = KEY.to_vec();
    let r = open_and_decode(&key, "hamster-auth", "bm90IGEgc2VhbA==");
    assert_eq!(r.unwrap_err(), DecodeError::TamperDetected);
}

#[test]
fn test_store_skips_when_unchanged() {
    let b = backend();
    let mut res = Response::ok();
    b.store(false, Some(ident()), &mut res).unwrap();
    assert!(res.cookies.is_empty());
    b.store(false, None, &mut res).unwrap();
    assert!(res.cookies.is_empty());
}

#[test]
fn test_store_none_emits_delete_form() {
    let b = backend();
    let mut res = Response::ok();
    b.store(true, None, &mut res).unwrap();
    assert_eq!(res.cookies.len(), 1);
    let c = &res.cookies[0];
    assert_eq!(c.name, "hamster-auth");
    assert_eq!(c.value, "");
    assert_eq!(c.max_age, Some(0));
    assert!(c.http_only);
}

#[test]
fn test_store_honours_configured_attributes() {
    let b = CookieAuthenticationBackend::new(KEY)
        .name("custom-auth".to_string())
        .path("/api".to_string())
        .domain("example.com".to_string())
        .secure(true)
        .max_age(3600)
        .same_site(SameSite::Strict);
    let mut res = Response::ok();
    b.store(true, Some(ident()), &mut res).unwrap();
    let c = &res.cookies[0];
    assert_eq!(c.name, "custom-auth");
    assert_eq!(c.path, "/api");
    assert_eq!(c.domain, Some("example.com".to_string()));
    assert!(c.secure);
    assert!(c.http_only);
    assert_eq!(c.max_age, Some(3600));
    assert_eq!(c.same_site, Some(SameSite::Strict));
}

#[test]
fn test_sealed_value_is_not_plaintext() {
    let b = backend();
    let value = stored_cookie_value(&b, Some(ident()));
    assert!(!value.contains("u1"));
    assert_ne!(value, "2:u11;4:user");
}
