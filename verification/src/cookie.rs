//! The cookie backend: persists the identity in a single named cookie whose
//! value is the codec payload sealed with authenticated encryption.
//!
//! Loading scans the inbound cookies for the configured name and accepts the
//! first one that both opens under the process key and decodes to a valid
//! identity; every failure along the way is absorbed into absence — an
//! unverifiable credential never surfaces as an error and never becomes a
//! privileged default.  Storing either seals a fresh credential or, on
//! clearing, overwrites the cookie with an empty, already-expired value so
//! the client drops it.

use vstd::prelude::*;
use vstd::slice::slice_to_vec;

use crate::authentication::Authentication;
use crate::codec::{decode, encode, spec_decode, spec_encode};
use crate::error::{DecodeError, AppError};
use crate::http::{is_delete_form, Request, Response, SameSite, SetCookie};

verus! {

/// What authenticated decryption of a sealed value yields: a function of
/// the master key, the cookie name (bound in as associated data) and the
/// sealed text alone.  Absence means the seal did not verify.
pub uninterp spec fn opened(key: Seq<u8>, name: Seq<char>, raw: Seq<char>) -> Option<Seq<char>>;

/// Relies on `actix_web::cookie::PrivateJar::add` (authenticated encryption
/// of the cookie value under a key derived from the master key, with the
/// cookie name as associated data) and on its documented guarantee that
/// decryption always succeeds on a value it sealed with the same key.
/// Sealing draws a fresh nonce from the operating system and aborts if that
/// randomness source fails; payloads beyond the cipher's size bound (far
/// past any cookie) are likewise outside this contract.
#[verifier::external_body]
fn seal_value(key: &Vec<u8>, name: &str, value: &str) -> (r: String)
    requires
        key@.len() >= 32,
    ensures
        opened(key@, name@, r@) == Some(value@),
{
    let k = actix_web::cookie::Key::derive_from(key.as_slice());
    let mut jar = actix_web::cookie::CookieJar::new();
    jar.private_mut(&k).add(actix_web::cookie::Cookie::new(
        name.to_string(),
        value.to_string(),
    ));
    jar.get(name).expect("the cookie was just added").value().to_string()
}

/// Relies on `actix_web::cookie::PrivateJar::decrypt`: authenticates and
/// decrypts a sealed value, returning the plaintext on success and nothing
/// on any failure; the outcome is a function of key, name and value alone.
#[verifier::external_body]
fn open_value(key: &Vec<u8>, name: &str, raw: &str) -> (r: Option<String>)
    requires
        key@.len() >= 32,
    ensures
        match r {
            Some(v) => opened(key@, name@, raw@) == Some(v@),
            None => opened(key@, name@, raw@) is None,
        },
{
    let k = actix_web::cookie::Key::derive_from(key.as_slice());
    let jar = actix_web::cookie::CookieJar::new();
    jar.private(&k).decrypt(actix_web::cookie::Cookie::new(name.to_string(), raw.to_string())).map(
        |c| c.value().to_string(),
    )
}

/// Opens a sealed value and decodes the payload it protects: the identity
/// on success, `TamperDetected` when the seal does not verify, `Malformed`
/// when the protected payload does not decode.  Callers that must be
/// fail-closed discard both errors.
pub fn open_and_decode(key: &Vec<u8>, name: &str, raw: &str) -> (r: Result<
    Authentication,
    DecodeError,
>)
    requires
        key@.len() >= 32,
    ensures
        match r {
            Ok(a) => a.wf() && (opened(key@, name@, raw@) matches Some(p) && spec_decode(p)
                == Some((a.identity@, a.authorities.deep_view()))),
            Err(e) => (e == DecodeError::TamperDetected && opened(key@, name@, raw@) is None) || (
            e == DecodeError::Malformed && (opened(key@, name@, raw@) matches Some(p)
                && spec_decode(p) is None)),
        },
{
    match open_value(key, name, raw) {
        None => Err(DecodeError::TamperDetected),
        Some(p) => decode(p.as_str()),
    }
}

/// The configuration of the cookie backend: the process-wide master key and
/// the attributes of the cookie it issues.  Immutable after construction.
pub struct CookieAuthenticationInner {
    /// Master key for sealing and opening; at least 32 bytes.
    pub key: Vec<u8>,
    /// The cookie name.
    pub name: String,
    /// The `Path` attribute.
    pub path: String,
    /// The `Domain` attribute, if any.
    pub domain: Option<String>,
    /// The `Secure` attribute.
    pub secure: bool,
    /// The `Max-Age` attribute in seconds, if any.
    pub max_age: Option<i64>,
    /// The `SameSite` attribute, if any.
    pub same_site: Option<SameSite>,
}

/// A live credential cookie: it carries the backend's configured name and
/// attributes, is never script-readable, and its sealed value opens to
/// exactly the payload of the stored identity.
pub open spec fn spec_live_cookie(
    inner: CookieAuthenticationInner,
    c: SetCookie,
    a: Authentication,
) -> bool {
    &&& c.name == inner.name
    &&& c.path == inner.path
    &&& c.domain == inner.domain
    &&& c.secure == inner.secure
    &&& c.http_only
    &&& c.max_age == inner.max_age
    &&& c.same_site == inner.same_site
    &&& opened(inner.key@, inner.name@, c.value@) == Some(
        spec_encode(a.identity@, a.authorities.deep_view()),
    )
}

/// The delete form of the credential cookie: same name, path and domain,
/// empty value, `Max-Age=0`, so the client drops the stored credential.
pub open spec fn spec_delete_cookie(inner: CookieAuthenticationInner, c: SetCookie) -> bool {
    &&& c.name == inner.name
    &&& c.path == inner.path
    &&& c.domain == inner.domain
    &&& c.secure == inner.secure
    &&& c.http_only
    &&& is_delete_form(c)
    &&& c.same_site == inner.same_site
}

/// What loading yields from a list of inbound cookies: the identity spelled
/// by the first cookie of the configured name whose seal verifies and whose
/// payload decodes; absence when no cookie qualifies.  No failure escapes as
/// an error.
pub open spec fn spec_load_from(
    key: Seq<u8>,
    name: Seq<char>,
    cookies: Seq<(Seq<char>, Seq<char>)>,
) -> Option<(Seq<char>, Seq<Seq<char>>)>
    decreases cookies.len(),
{
    if cookies.len() == 0 {
        None
    } else {
        let c = cookies.first();
        if c.0 == name {
            match opened(key, name, c.1) {
                Some(p) => match spec_decode(p) {
                    Some(ia) => Some(ia),
                    None => spec_load_from(key, name, cookies.drop_first()),
                },
                None => spec_load_from(key, name, cookies.drop_first()),
            }
        } else {
            spec_load_from(key, name, cookies.drop_first())
        }
    }
}

/// Fail-closed: when no inbound cookie qualifies — wrong name, a seal that
/// does not verify, or a payload that does not decode — loading yields
/// absence, never an error and never a default identity.
pub proof fn lemma_load_fail_closed(
    key: Seq<u8>,
    name: Seq<char>,
    cookies: Seq<(Seq<char>, Seq<char>)>,
)
    requires
        forall|i: int|
            0 <= i < cookies.len() ==> ((#[trigger] cookies[i]).0 != name || opened(
                key,
                name,
                cookies[i].1,
            ) is None || spec_decode(opened(key, name, cookies[i].1)->Some_0) is None),
    ensures
        spec_load_from(key, name, cookies) is None,
    decreases cookies.len(),
{
    if cookies.len() > 0 {
        assert(cookies[0] == cookies.first());
        assert forall|i: int| 0 <= i < cookies.drop_first().len() implies ((
        #[trigger] cookies.drop_first()[i]).0 != name || opened(
            key,
            name,
            cookies.drop_first()[i].1,
        ) is None || spec_decode(opened(key, name, cookies.drop_first()[i].1)->Some_0) is None) by {
            assert(cookies.drop_first()[i] == cookies[i + 1]);
        }
        lemma_load_fail_closed(key, name, cookies.drop_first());
    }
}

/// Round-trip through the backend: a request presenting exactly the cookie
/// a store emitted for identity `a` loads `a` back.
pub proof fn lemma_store_then_load(
    inner: CookieAuthenticationInner,
    c: SetCookie,
    a: Authentication,
)
    requires
        a.wf(),
        spec_live_cookie(inner, c, a),
    ensures
        spec_load_from(inner.key@, inner.name@, seq![(c.name@, c.value@)]) == Some(
            (a.identity@, a.authorities.deep_view()),
        ),
{
    crate::codec::lemma_codec_round_trip(a.identity@, a.authorities.deep_view());
    let cookies = seq![(c.name@, c.value@)];
    assert(cookies.first() == (c.name@, c.value@));
    assert(c.name@ == inner.name@);
}

impl CookieAuthenticationInner {
    /// The configuration is usable when its key is long enough to derive
    /// sealing keys from.
    pub open spec fn wf(&self) -> bool {
        self.key@.len() >= 32
    }

    /// The default configuration: cookie `hamster-auth` on path `/`, no
    /// domain, not secure, session-lived, no `SameSite`.
    pub fn new(key: &[u8]) -> (r: CookieAuthenticationInner)
        requires
            key@.len() >= 32,
        ensures
            r.wf(),
            r.key@ == key@,
            r.name@ == "hamster-auth"@,
            r.path@ == "/"@,
            r.domain is None,
            !r.secure,
            r.max_age is None,
            r.same_site is None,
    {
        CookieAuthenticationInner {
            key: slice_to_vec(key),
            name: "hamster-auth".to_owned(),
            path: "/".to_owned(),
            domain: None,
            secure: false,
            max_age: None,
            same_site: None,
        }
    }

    /// Scans the inbound cookies for the configured name and returns the
    /// identity of the first credential that verifies and decodes; any
    /// missing, unverifiable or malformed credential yields absence, never
    /// an error.
    pub fn load(&self, req: &Request) -> (r: Option<Authentication>)
        requires
            self.wf(),
        ensures
            match r {
                Some(a) => a.wf() && spec_load_from(
                    self.key@,
                    self.name@,
                    req.cookies.deep_view(),
                ) == Some((a.identity@, a.authorities.deep_view())),
                None => spec_load_from(self.key@, self.name@, req.cookies.deep_view()) is None,
            },
    {
        let ghost dv = req.cookies.deep_view();
        let n = req.cookies.len();
        let mut i: usize = 0;
        proof {
            assert(dv.skip(0) =~= dv);
        }
        #[verifier::loop_isolation(false)]
        while i < n
            invariant
                i <= n,
                spec_load_from(self.key@, self.name@, dv) == spec_load_from(
                    self.key@,
                    self.name@,
                    dv.skip(i as int),
                ),
            decreases n - i,
        {
            proof {
                assert(dv.skip(i as int).first() == dv[i as int]);
                assert(dv.skip(i as int).drop_first() =~= dv.skip(i + 1));
                assert(dv[i as int].0 == req.cookies@[i as int].0@);
                assert(dv[i as int].1 == req.cookies@[i as int].1@);
            }
            if req.cookies[i].0.eq(&self.name) {
                match open_and_decode(&self.key, self.name.as_str(), req.cookies[i].1.as_str()) {
                    Ok(a) => {
                        return Some(a);
                    },
                    Err(_) => {},
                }
            }
            i = i + 1;
        }
        proof {
            assert(dv.skip(n as int) =~= Seq::<(Seq<char>, Seq<char>)>::empty());
        }
        None
    }

    /// Appends the one `Set-Cookie` header this store produces: a sealed
    /// live credential for `Some`, the delete form for `None`.  The status
    /// and the headers already present are untouched.
    pub fn set_cookie(&self, res: &mut Response, a: Option<&Authentication>) -> (r: Result<
        (),
        AppError,
    >)
        requires
            self.wf(),
        ensures
            r is Ok,
            final(res).status == old(res).status,
            final(res).cookies@.len() == old(res).cookies@.len() + 1,
            final(res).cookies@ == old(res).cookies@.push(final(res).cookies@.last()),
            match a {
                Some(x) => spec_live_cookie(*self, final(res).cookies@.last(), *x),
                None => spec_delete_cookie(*self, final(res).cookies@.last()),
            },
    {
        let c = match a {
            Some(x) => {
                let payload = encode(x);
                let sealed = seal_value(&self.key, self.name.as_str(), payload.as_str());
                SetCookie {
                    name: self.name.clone(),
                    value: sealed,
                    path: self.path.clone(),
                    domain: self.domain.clone(),
                    secure: self.secure,
                    http_only: true,
                    max_age: self.max_age,
                    same_site: self.same_site,
                }
            },
            None => SetCookie {
                name: self.name.clone(),
                value: String::new(),
                path: self.path.clone(),
                domain: self.domain.clone(),
                secure: self.secure,
                http_only: true,
                max_age: Some(0),
                same_site: self.same_site,
            },
        };
        let ghost before = res.cookies@;
        res.cookies.push(c);
        proof {
            assert(res.cookies@.last() == res.cookies@[before.len() as int]);
        }
        Ok(())
    }
}

/// The concrete authentication backend over a single named cookie.
pub struct CookieAuthenticationBackend {
    pub inner: CookieAuthenticationInner,
}

impl CookieAuthenticationBackend {
    /// A backend with the default configuration and the given master key.
    pub fn new(key: &[u8]) -> (r: CookieAuthenticationBackend)
        requires
            key@.len() >= 32,
        ensures
            r.inner.wf(),
            r.inner.key@ == key@,
            r.inner.name@ == "hamster-auth"@,
            r.inner.path@ == "/"@,
            r.inner.domain is None,
            !r.inner.secure,
            r.inner.max_age is None,
            r.inner.same_site is None,
    {
        CookieAuthenticationBackend { inner: CookieAuthenticationInner::new(key) }
    }

    /// Replaces the cookie path.
    pub fn path(self, value: String) -> (r: CookieAuthenticationBackend)
        ensures
            r.inner == (CookieAuthenticationInner { path: value, ..self.inner }),
    {
        let mut inner = self.inner;
        inner.path = value;
        CookieAuthenticationBackend { inner }
    }

    /// Replaces the cookie name.
    pub fn name(self, value: String) -> (r: CookieAuthenticationBackend)
        ensures
            r.inner == (CookieAuthenticationInner { name: value, ..self.inner }),
    {
        let mut inner = self.inner;
        inner.name = value;
        CookieAuthenticationBackend { inner }
    }

    /// Sets the cookie domain.
    pub fn domain(self, value: String) -> (r: CookieAuthenticationBackend)
        ensures
            r.inner == (CookieAuthenticationInner { domain: Some(value), ..self.inner }),
    {
        let mut inner = self.inner;
        inner.domain = Some(value);
        CookieAuthenticationBackend { inner }
    }

    /// Sets the `Secure` attribute.
    pub fn secure(self, value: bool) -> (r: CookieAuthenticationBackend)
        ensures
            r.inner == (CookieAuthenticationInner { secure: value, ..self.inner }),
    {
        let mut inner = self.inner;
        inner.secure = value;
        CookieAuthenticationBackend { inner }
    }

    /// Sets the cookie lifetime in seconds.
    pub fn max_age(self, seconds: i64) -> (r: CookieAuthenticationBackend)
        ensures
            r.inner == (CookieAuthenticationInner { max_age: Some(seconds), ..self.inner }),
    {
        let mut inner = self.inner;
        inner.max_age = Some(seconds);
        CookieAuthenticationBackend { inner }
    }

    /// Sets the `SameSite` attribute.
    pub fn same_site(self, same_site: SameSite) -> (r: CookieAuthenticationBackend)
        ensures
            r.inner == (CookieAuthenticationInner { same_site: Some(same_site), ..self.inner }),
    {
        let mut inner = self.inner;
        inner.same_site = Some(same_site);
        CookieAuthenticationBackend { inner }
    }
}

} // verus!
