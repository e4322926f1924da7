use hamster_auth::authentication::{Authentication, AuthenticationManager};
use hamster_auth::cookie::CookieAuthenticationBackend;
use hamster_auth::error::{AppError, ErrorKind};
use hamster_auth::http::{Request, Response};
use hamster_auth::middleware::{AuthenticationBackend, AuthenticationService};

const KEY: &[u8] = &[0; 32];

fn service() -> AuthenticationService<CookieAuthenticationBackend> {
    AuthenticationService::new(CookieAuthenticationBackend::new(KEY).secure(false))
}

fn request_with(name: &str, value: &str) -> Request {
    let mut req = Request::new();
    req.cookies.push((name.to_string(), value.to_string()));
    req
}

fn login_identity() -> Authentication {
    Authentication::new("u1".to_string(), vec!["user".to_string()])
}

/// A protected route: 401 when no identity was loaded.
fn protected(_req: Request, m: AuthenticationManager) -> (AuthenticationManager, Response) {
    let resp = match m.require_authentication() {
        Ok(a) => {
            let _ = a.identity();
            Response::ok()
        }
        Err(e) => e.error_response(),
    };
    (m, resp)
}

/// The login route: remembers the identity.
fn login(_req: Request, mut m: AuthenticationManager) -> (AuthenticationManager, Response) {
    m.remember(login_identity());
    (m, Response::ok())
}

/// The logout route: forgets the identity.
fn logout(_req: Request, mut m: AuthenticationManager) -> (AuthenticationManager, Response) {
    m.forget();
    (m, Response::ok())
}

#[test]
fn test_cookie_authentication() {
    let mw = AuthenticationService::new(
        CookieAuthenticationBackend::new(&[0; 32]).secure(false),
    )
    .new_transform();

    // "/" — anonymous fallback route, as the server exposes it.
    let resp = mw.call(Request::new(), |_req: Request, m: AuthenticationManager| {
        let a = m.authentication_or_anonymous();
        let _ = a.identity().to_string();
        (m, Response::ok())
    });
    assert_eq!(resp.status, 200);

    // "/login" — remembers an administrator identity.
    let resp = mw.call(Request::new(), |_req: Request, mut m: AuthenticationManager| {
        m.remember(Authentication::new(
            "admin".to_string(),
            vec!["admin".to_string()],
        ));
        (m, Response::ok())
    });
    assert_eq!(resp.status, 200);
    assert_eq!(resp.cookies.len(), 1);

    // "/logout" — forgets it again.
    let resp = mw.call(Request::new(), |_req: Request, mut m: AuthenticationManager| {
        m.forget();
        (m, Response::ok())
    });
    assert_eq!(resp.status, 200);
}

#[test]
fn test_scenario_anonymous_get_is_401_without_cookie() {
    let mw = service().new_transform();
    let resp = mw.call(Request::new(), protected);
    assert_eq!(resp.status, 401);
    assert!(resp.cookies.is_empty());
}

#[test]
fn test_scenario_login_sets_decodable_cookie() {
    let mw = service().new_transform();
    let resp = mw.call(Request::new(), login);
    assert_eq!(resp.status, 200);
    assert_eq!(resp.cookies.len(), 1);
    let c = &resp.cookies[0];
    assert_eq!(c.name, "hamster-auth");

    // The issued credential decodes back to exactly the remembered identity.
    let backend = CookieAuthenticationBackend::new(KEY);
    let req = request_with(&c.name, &c.value);
    let loaded = backend.load(&req).unwrap().unwrap();
    assert_eq!(loaded, login_identity());
}

#[test]
fn test_scenario_cookie_carries_identity_to_next_request() {
    let mw = service().new_transform();
    let login_resp = mw.call(Request::new(), login);
    let c = &login_resp.cookies[0];

    let mut seen: Option<Authentication> = None;
    let resp = mw.call(request_with(&c.name, &c.value), |_req, m: AuthenticationManager| {
        seen = m.authentication().clone();
        (m, Response::ok())
    });
    assert_eq!(resp.status, 200);
    // No mutation happened, so no cookie churn either.
    assert!(resp.cookies.is_empty());
    let seen = seen.unwrap();
    assert_eq!(seen.identity(), "u1");
    assert_eq!(seen.authorities, vec!["user".to_string()]);
}

#[test]
fn test_scenario_logout_emits_delete_cookie() {
    let mw = service().new_transform();
    let login_resp = mw.call(Request::new(), login);
    let c = login_resp.cookies[0].clone();

    let resp = mw.call(request_with(&c.name, &c.value), logout);
    assert_eq!(resp.status, 200);
    assert_eq!(resp.cookies.len(), 1);
    let d = &resp.cookies[0];
    assert_eq!(d.value, "");
    assert_eq!(d.max_age, Some(0));
    assert_eq!(d.name, c.name);

    // The server is stateless: a client that kept the original cookie is
    // still recognised; one that dropped it is anonymous again.
    let backend = CookieAuthenticationBackend::new(KEY);
    assert!(backend.load(&request_with(&c.name, &c.value)).unwrap().is_some());
    assert!(backend.load(&Request::new()).unwrap().is_none());
}

#[test]
fn test_dirty_flag_consumed_exactly_once() {
    let backend = CookieAuthenticationBackend::new(KEY);
    let mut m = AuthenticationManager::fresh(None);
    m.remember(login_identity());

    // First consumption observes the mutation and stores a cookie.
    let (changed, a) = m.get_changed();
    assert!(changed);
    let mut res = Response::ok();
    backend.store(changed, a, &mut res).unwrap();
    assert_eq!(res.cookies.len(), 1);

    // A second store in the same cycle observes a clean container and must
    // not emit anything.
    let (changed, a) = m.get_changed();
    assert!(!changed);
    backend.store(changed, a, &mut res).unwrap();
    assert_eq!(res.cookies.len(), 1);
}

#[test]
fn test_forget_overrides_remember_in_same_cycle() {
    let backend = CookieAuthenticationBackend::new(KEY);
    let mut m = AuthenticationManager::fresh(None);
    m.remember(login_identity());
    m.forget();

    let (changed, a) = m.get_changed();
    assert!(changed);
    assert!(a.is_none());
    let mut res = Response::ok();
    backend.store(changed, a, &mut res).unwrap();
    assert_eq!(res.cookies.len(), 1);
    assert_eq!(res.cookies[0].value, "");
    assert_eq!(res.cookies[0].max_age, Some(0));
}

#[test]
fn test_extraction_unauthorized_and_anonymous_fallback() {
    let m = AuthenticationManager::fresh(None);
    let err = m.require_authentication().unwrap_err();
    assert_eq!(err.kind(), ErrorKind::Unauthorized);
    assert_eq!(err.status_code(), 401);
    let anon = m.authentication_or_anonymous();
    assert_eq!(anon.identity(), "anonymous");

    let m = AuthenticationManager::fresh(Some(login_identity()));
    assert_eq!(m.require_authentication().unwrap(), &login_identity());
}

#[test]
fn test_error_status_mapping() {
    assert_eq!(AppError::new(ErrorKind::Unauthorized).status_code(), 401);
    assert_eq!(AppError::new(ErrorKind::DbError).status_code(), 500);
    assert_eq!(AppError::new(ErrorKind::DbPoolError).status_code(), 500);
    assert_eq!(AppError::new(ErrorKind::SerializeJsonError).error_response().status, 500);
    assert_eq!(AppError::new(ErrorKind::Unauthorized).error_response().status, 401);
}
