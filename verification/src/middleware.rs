//! The authentication middleware: wraps the request pipeline, loads an
//! identity through a pluggable backend on the way in, exposes it to the
//! pipeline through the state container, and persists any mutation back
//! through the same backend on the way out.
//!
//! Per request the machine moves through loading, dispatching and storing in
//! order; a backend failure while loading bypasses the pipeline entirely,
//! and a failure while storing degrades the response to an error status.

use vstd::prelude::*;

use crate::authentication::{Authentication, AuthenticationManager};
use crate::cookie::{
    spec_delete_cookie, spec_live_cookie, spec_load_from, CookieAuthenticationBackend,
};
use crate::error::{spec_status_code, AppError, ErrorKind};
use crate::http::{Request, Response};

verus! {

/// A pluggable persistence backend for the authentication identity.  One
/// concrete variant reads and writes a cookie; others may carry a bearer
/// token or a key into a server-side session store.  `load` and `store` are
/// separate so a new backend never touches the middleware.
pub trait AuthenticationBackend: Sized {
    /// The backend's configuration is usable.
    spec fn wf(&self) -> bool;

    /// What `load` yields on a given request, identity at the level of
    /// views: the subject's characters and the authority names.
    spec fn spec_load(&self, req: Request) -> Result<Option<(Seq<char>, Seq<Seq<char>>)>, ErrorKind>;

    /// How a response that persisted `a` relates to the response before the
    /// store.
    spec fn spec_stored(
        &self,
        a: Option<Authentication>,
        old_res: Response,
        new_res: Response,
    ) -> bool;

    /// Whether this backend's store can fail at all.  A backend whose store
    /// is total promises success, so its callers rely on the persisted
    /// effect unconditionally; one that can fail leaves the response
    /// untouched when it does, and the middleware degrades it.
    spec fn store_total(&self) -> bool;

    /// Reads the identity carried by the inbound request.  Absence of a
    /// credential, and every unverifiable credential, is a normal outcome,
    /// not a failure.
    fn load(&self, req: &Request) -> (r: Result<Option<Authentication>, AppError>)
        requires
            self.wf(),
        ensures
            match r {
                Ok(Some(a)) => a.wf() && self.spec_load(*req) == Ok::<
                    Option<(Seq<char>, Seq<Seq<char>>)>,
                    ErrorKind,
                >(Some((a.identity@, a.authorities.deep_view()))),
                Ok(None) => self.spec_load(*req) == Ok::<
                    Option<(Seq<char>, Seq<Seq<char>>)>,
                    ErrorKind,
                >(None),
                Err(e) => self.spec_load(*req) == Err::<
                    Option<(Seq<char>, Seq<Seq<char>>)>,
                    ErrorKind,
                >(e.kind),
            },
    ;

    /// Persists the identity into the outbound response.  When nothing
    /// changed this is a no-op: the response passes through untouched, with
    /// no credential churn.
    fn store(&self, changed: bool, authentication: Option<Authentication>, res: &mut Response) -> (r:
        Result<(), AppError>)
        requires
            self.wf(),
            authentication matches Some(a) ==> a.wf(),
        ensures
            !changed ==> r is Ok && *final(res) == *old(res),
            changed && r is Ok ==> final(res).status == old(res).status && self.spec_stored(
                authentication,
                *old(res),
                *final(res),
            ),
            changed && r is Err ==> *final(res) == *old(res),
            changed && self.store_total() ==> r is Ok,
    ;
}

impl AuthenticationBackend for CookieAuthenticationBackend {
    open spec fn wf(&self) -> bool {
        self.inner.wf()
    }

    open spec fn spec_load(&self, req: Request) -> Result<
        Option<(Seq<char>, Seq<Seq<char>>)>,
        ErrorKind,
    > {
        Ok(spec_load_from(self.inner.key@, self.inner.name@, req.cookies.deep_view()))
    }

    /// Setting a cookie on the structured response cannot fail.
    open spec fn store_total(&self) -> bool {
        true
    }

    /// Exactly one `Set-Cookie` header is appended: a sealed live credential
    /// for an identity, the delete form for absence.
    open spec fn spec_stored(
        &self,
        a: Option<Authentication>,
        old_res: Response,
        new_res: Response,
    ) -> bool {
        &&& new_res.cookies@.len() == old_res.cookies@.len() + 1
        &&& new_res.cookies@ == old_res.cookies@.push(new_res.cookies@.last())
        &&& match a {
            Some(x) => spec_live_cookie(self.inner, new_res.cookies@.last(), x),
            None => spec_delete_cookie(self.inner, new_res.cookies@.last()),
        }
    }

    fn load(&self, req: &Request) -> (r: Result<Option<Authentication>, AppError>) {
        Ok(self.inner.load(req))
    }

    fn store(&self, changed: bool, authentication: Option<Authentication>, res: &mut Response) -> (r:
        Result<(), AppError>) {
        if changed {
            let result = self.inner.set_cookie(res, authentication.as_ref());
            match result {
                Ok(()) => Ok(()),
                Err(e) => Err(e),
            }
        } else {
            Ok(())
        }
    }
}

/// The middleware factory: holds the backend and hands out the middleware
/// that wraps the pipeline.
pub struct AuthenticationService<T> {
    pub backend: T,
}

impl<T: AuthenticationBackend> AuthenticationService<T> {
    /// A factory over the given backend.
    pub fn new(backend: T) -> (r: AuthenticationService<T>)
        ensures
            r.backend == backend,
    {
        AuthenticationService { backend }
    }

    /// The middleware instance that will wrap the pipeline.
    pub fn new_transform(self) -> (r: AuthenticationMiddleware<T>)
        ensures
            r.backend == self.backend,
    {
        AuthenticationMiddleware { backend: self.backend }
    }
}

/// The middleware around one pipeline: loads on the way in, stores on the
/// way out.
pub struct AuthenticationMiddleware<T> {
    pub backend: T,
}

impl<T: AuthenticationBackend> AuthenticationMiddleware<T> {
    /// The inbound phase: asks the backend for the identity and installs it,
    /// clean, into a fresh state container.  A backend failure here bypasses
    /// the pipeline: the caller gets the error response instead.
    pub fn on_request(&self, req: &Request) -> (r: Result<AuthenticationManager, Response>)
        requires
            self.backend.wf(),
        ensures
            match r {
                Ok(m) => !m.inner.changed && match m.inner.authentication {
                    Some(a) => a.wf() && self.backend.spec_load(*req) == Ok::<
                        Option<(Seq<char>, Seq<Seq<char>>)>,
                        ErrorKind,
                    >(Some((a.identity@, a.authorities.deep_view()))),
                    None => self.backend.spec_load(*req) == Ok::<
                        Option<(Seq<char>, Seq<Seq<char>>)>,
                        ErrorKind,
                    >(None),
                },
                Err(resp) => resp.cookies@.len() == 0 && (self.backend.spec_load(*req) matches Err(
                    k,
                ) && resp.status == spec_status_code(k)),
            },
    {
        match self.backend.load(req) {
            Ok(a) => Ok(AuthenticationManager::fresh(a)),
            Err(e) => Err(e.error_response()),
        }
    }

    /// The outbound phase: consumes the container's mutation record exactly
    /// once and asks the backend to persist it against the response.  When
    /// nothing changed the response passes through untouched; when the store
    /// fails the response degrades to the failure's error status.
    pub fn on_response(&self, manager: &mut AuthenticationManager, res: &mut Response)
        requires
            self.backend.wf(),
            old(manager).inner.authentication matches Some(a) ==> a.wf(),
        ensures
            !final(manager).inner.changed,
            !old(manager).inner.changed ==> *final(res) == *old(res),
            old(manager).inner.changed ==> ((final(res).status == old(res).status
                && self.backend.spec_stored(
                old(manager).inner.authentication,
                *old(res),
                *final(res),
            )) || (final(res).cookies@.len() == 0 && (final(res).status == 401 || final(res).status
                == 500))),
            old(manager).inner.changed && self.backend.store_total() ==> final(res).status == old(
                res,
            ).status && self.backend.spec_stored(
                old(manager).inner.authentication,
                *old(res),
                *final(res),
            ),
    {
        let (changed, authentication) = manager.get_changed();
        let stored = self.backend.store(changed, authentication, res);
        match stored {
            Ok(()) => {},
            Err(e) => {
                *res = e.error_response();
            },
        }
    }

    /// The whole state machine around one request: load the identity,
    /// dispatch the wrapped pipeline with the state container, persist any
    /// mutation, and hand back the response.  A load failure answers
    /// directly with the error response, skipping the pipeline.
    pub fn call<F: FnOnce(Request, AuthenticationManager) -> (AuthenticationManager, Response)>(
        &self,
        req: Request,
        service: F,
    ) -> (r: Response)
        requires
            self.backend.wf(),
            forall|q: Request, m: AuthenticationManager|
                (!m.inner.changed && (m.inner.authentication matches Some(a) ==> a.wf()))
                    ==> #[trigger] call_requires(service, (q, m)),
            forall|q: Request, m: AuthenticationManager, out: (AuthenticationManager, Response)|
                call_ensures(service, (q, m), out) ==> (out.0.inner.authentication matches Some(a)
                    ==> a.wf()),
        ensures
            (self.backend.spec_load(req) matches Err(k) && r.cookies@.len() == 0 && r.status
                == spec_status_code(k)) || (exists|
                m0: AuthenticationManager,
                out: (AuthenticationManager, Response),
            |
                {
                    &&& !m0.inner.changed
                    &&& match m0.inner.authentication {
                        Some(a) => a.wf() && self.backend.spec_load(req) == Ok::<
                            Option<(Seq<char>, Seq<Seq<char>>)>,
                            ErrorKind,
                        >(Some((a.identity@, a.authorities.deep_view()))),
                        None => self.backend.spec_load(req) == Ok::<
                            Option<(Seq<char>, Seq<Seq<char>>)>,
                            ErrorKind,
                        >(None),
                    }
                    &&& #[trigger] call_ensures(service, (req, m0), out)
                    &&& (!out.0.inner.changed ==> r == out.1)
                    &&& (out.0.inner.changed ==> ((r.status == out.1.status
                        && self.backend.spec_stored(out.0.inner.authentication, out.1, r)) || (
                    r.cookies@.len() == 0 && (r.status == 401 || r.status == 500))))
                    &&& (out.0.inner.changed && self.backend.store_total() ==> r.status
                        == out.1.status && self.backend.spec_stored(
                        out.0.inner.authentication,
                        out.1,
                        r,
                    ))
                }),
    {
        let ghost req0 = req;
        let manager = match self.on_request(&req) {
            Ok(m) => m,
            Err(resp) => {
                return resp;
            },
        };
        let ghost m0 = manager;
        let (mut manager, mut res) = service(req, manager);
        let ghost out = (manager, res);
        self.on_response(&mut manager, &mut res);
        proof {
            assert(call_ensures(service, (req0, m0), out));
        }
        res
    }
}

} // verus!
