//! The authenticated identity and the per-request state container.
//!
//! An [`Authentication`] names the authenticated subject and the authority
//! names granted to it.  Absence of an identity is represented by carrying
//! no `Authentication` at all, never by an empty one; callers that want a
//! default instead of absence use the anonymous sentinel.
//!
//! An [`AuthenticationManager`] is the request-scoped mutable cell: it holds
//! the current identity and a dirty flag, is installed by the middleware on
//! the way in, mutated by handlers, and consumed exactly once on the way out.

use vstd::prelude::*;

use crate::error::{AppError, ErrorKind};

verus! {

/// An authenticated identity: the subject's principal id and its granted
/// authority names.  The subject is never empty; the authority list carries
/// no duplicates and its order has no significance.
#[derive(Debug, Clone, PartialEq)]
pub struct Authentication {
    /// The unique principal id of the subject.
    pub identity: String,
    /// The role or capability names granted to the subject.
    pub authorities: Vec<String>,
}

/// The authority list `s` with every later repetition of an element removed:
/// each element keeps its first occurrence only.
pub open spec fn spec_dedup(s: Seq<Seq<char>>) -> Seq<Seq<char>>
    decreases s.len(),
{
    if s.len() == 0 {
        Seq::empty()
    } else {
        let rest = spec_dedup(s.drop_last());
        if rest.contains(s.last()) {
            rest
        } else {
            rest.push(s.last())
        }
    }
}

impl Authentication {
    /// A value is well formed when its subject is non-empty and its
    /// authority list has no duplicates.
    pub open spec fn wf(&self) -> bool {
        &&& self.identity@.len() > 0
        &&& self.authorities.deep_view().no_duplicates()
    }

    /// Builds an identity from a subject and authority names; repeated
    /// authority names collapse to their first occurrence, as collecting
    /// into a set would.
    pub fn new(identity: String, authorities: Vec<String>) -> (r: Authentication)
        requires
            identity@.len() > 0,
        ensures
            r.wf(),
            r.identity@ == identity@,
            r.authorities.deep_view() == spec_dedup(authorities.deep_view()),
    {
        let mut kept: Vec<String> = Vec::new();
        let n = authorities.len();
        for i in 0..n
            invariant
                n == authorities.len(),
                kept.deep_view() == spec_dedup(authorities.deep_view().take(i as int)),
                kept.deep_view().no_duplicates(),
        {
            proof {
                assert(authorities.deep_view().take(i + 1).drop_last() =~= authorities
                    .deep_view()
                    .take(i as int));
                assert(authorities.deep_view().take(i + 1).last() == authorities.deep_view()[
                    i as int
                ]);
            }
            proof {
                assert(authorities.deep_view()[i as int] == authorities@[i as int]@);
            }
            if !contains_string(&kept, &authorities[i]) {
                let ghost prev = kept.deep_view();
                kept.push(authorities[i].clone());
                proof {
                    assert(kept.deep_view() =~= prev.push(authorities@[i as int]@));
                }
            }
        }
        proof {
            assert(authorities.deep_view().take(n as int) =~= authorities.deep_view());
            lemma_dedup_no_duplicates(authorities.deep_view());
        }
        Authentication { identity, authorities: kept }
    }

    /// The anonymous sentinel: subject `anonymous` with the single authority
    /// `anonymous`.  Used by callers that need a default rather than absence.
    pub fn anonymous() -> (r: Authentication)
        ensures
            r.wf(),
            r.identity@ == "anonymous"@,
            r.authorities.deep_view() == seq!["anonymous"@],
    {
        proof {
            reveal_strlit("anonymous");
        }
        let mut authorities: Vec<String> = Vec::new();
        authorities.push("anonymous".to_owned());
        let r = Authentication { identity: "anonymous".to_owned(), authorities };
        proof {
            assert(r.authorities.deep_view() =~= seq!["anonymous"@]);
            assert(r.authorities.deep_view().no_duplicates());
        }
        r
    }

    /// A copy of this identity, equal field by field.
    pub fn duplicate(&self) -> (r: Authentication)
        ensures
            r.identity == self.identity,
            r.authorities@ == self.authorities@,
            r.authorities.deep_view() == self.authorities.deep_view(),
    {
        let identity = self.identity.clone();
        let authorities = self.authorities.clone();
        proof {
            assert forall|i: int| 0 <= i < self.authorities@.len() implies authorities@[i]
                == self.authorities@[i] by {
                assert(cloned::<String>(self.authorities[i], authorities[i]));
            }
            assert(authorities@ =~= self.authorities@);
            assert(authorities.deep_view() =~= self.authorities.deep_view());
        }
        Authentication { identity, authorities }
    }

    /// The subject's principal id.
    pub fn identity(&self) -> (r: &str)
        ensures
            r@ == self.identity@,
    {
        self.identity.as_str()
    }
}

/// True exactly when some element of `v` reads as `s`.
pub fn contains_string(v: &Vec<String>, s: &String) -> (r: bool)
    ensures
        r == v.deep_view().contains(s@),
{
    let n = v.len();
    for i in 0..n
        invariant
            n == v.len(),
            forall|k: int| 0 <= k < i ==> v.deep_view()[k] != s@,
    {
        proof {
            assert(v.deep_view()[i as int] == v@[i as int]@);
        }
        if v[i].eq(s) {
            return true;
        }
    }
    false
}

/// Deduplication leaves no duplicates behind.
pub proof fn lemma_dedup_no_duplicates(s: Seq<Seq<char>>)
    ensures
        spec_dedup(s).no_duplicates(),
    decreases s.len(),
{
    if s.len() > 0 {
        lemma_dedup_no_duplicates(s.drop_last());
    }
}

/// The request-scoped authentication state: the identity loaded by the
/// backend or set by handlers, and a dirty flag recording whether the
/// identity was mutated in this request.
pub struct AuthenticationManagerInner {
    /// True after `remember` or `forget`, until the response phase consumes
    /// the mutation.
    pub changed: bool,
    /// The current identity, if any.
    pub authentication: Option<Authentication>,
}

impl AuthenticationManagerInner {
    /// A fresh container: no identity, nothing to persist.
    pub fn new() -> (r: AuthenticationManagerInner)
        ensures
            !r.changed,
            r.authentication is None,
    {
        AuthenticationManagerInner { changed: false, authentication: None }
    }
}

/// The handler-facing handle on the request's authentication state.
pub struct AuthenticationManager {
    pub inner: AuthenticationManagerInner,
}

/// The container after `remember(a)`: the identity is `a` and the state is
/// dirty.
pub open spec fn spec_remember(
    m: AuthenticationManager,
    a: Authentication,
) -> AuthenticationManager {
    AuthenticationManager {
        inner: AuthenticationManagerInner { changed: true, authentication: Some(a) },
    }
}

/// The observation `get_changed` returns and the container it leaves
/// behind: the mutation record as it stood, then a clean, empty container.
pub open spec fn spec_consume(m: AuthenticationManager) -> (
    (bool, Option<Authentication>),
    AuthenticationManager,
) {
    (
        (m.inner.changed, m.inner.authentication),
        AuthenticationManager {
            inner: AuthenticationManagerInner { changed: false, authentication: None },
        },
    )
}

/// The container after `forget`: no identity and the state is dirty.
pub open spec fn spec_forget(m: AuthenticationManager) -> AuthenticationManager {
    AuthenticationManager {
        inner: AuthenticationManagerInner { changed: true, authentication: None },
    }
}

impl AuthenticationManager {
    /// A fresh container holding the identity the backend loaded, clean.
    pub fn fresh(a: Option<Authentication>) -> (r: AuthenticationManager)
        ensures
            !r.inner.changed,
            r.inner.authentication == a,
    {
        AuthenticationManager {
            inner: AuthenticationManagerInner { changed: false, authentication: a },
        }
    }

    /// Reads the current identity without side effect; the dirty flag is
    /// untouched.
    pub fn authentication(&self) -> (r: &Option<Authentication>)
        ensures
            r == &self.inner.authentication,
    {
        &self.inner.authentication
    }

    /// Installs `a` as the current identity and marks the state dirty.
    pub fn remember(&mut self, a: Authentication)
        ensures
            *final(self) == spec_remember(*old(self), a),
    {
        self.inner.authentication = Some(a);
        self.inner.changed = true;
    }

    /// Clears the identity and marks the state dirty.
    pub fn forget(&mut self)
        ensures
            *final(self) == spec_forget(*old(self)),
    {
        self.inner.authentication = None;
        self.inner.changed = true;
    }

    /// Consumes the mutation record: returns the dirty flag together with
    /// the identity, and resets the flag, so that exactly one store call per
    /// response phase observes a mutation.
    pub fn get_changed(&mut self) -> (r: (bool, Option<Authentication>))
        ensures
            (r, *final(self)) == spec_consume(*old(self)),
            r.0 == old(self).inner.changed,
            r.1 == old(self).inner.authentication,
            !final(self).inner.changed,
            final(self).inner.authentication is None,
    {
        let changed = self.inner.changed;
        self.inner.changed = false;
        let authentication = self.inner.authentication.take();
        (changed, authentication)
    }

    /// The always-succeeding accessor: the current identity, or the
    /// anonymous sentinel when none is present.
    pub fn authentication_or_anonymous(&self) -> (r: Authentication)
        ensures
            match self.inner.authentication {
                Some(a) => r.identity == a.identity && r.authorities.deep_view()
                    == a.authorities.deep_view(),
                None => r.identity@ == "anonymous"@ && r.authorities.deep_view() == seq![
                    "anonymous"@,
                ],
            },
    {
        match &self.inner.authentication {
            Some(a) => a.duplicate(),
            None => Authentication::anonymous(),
        }
    }

    /// The read-only accessor handlers extract: the identity when one is
    /// present, `Unauthorized` otherwise.
    pub fn require_authentication(&self) -> (r: Result<&Authentication, AppError>)
        ensures
            match r {
                Ok(a) => self.inner.authentication == Some(*a),
                Err(e) => self.inner.authentication is None && e.kind == ErrorKind::Unauthorized,
            },
    {
        match &self.inner.authentication {
            Some(a) => Ok(a),
            None => Err(AppError::new(ErrorKind::Unauthorized)),
        }
    }
}

/// After `remember`, exactly one consumption observes the mutation: the
/// first read of the dirty flag returns true together with the remembered
/// identity, and a second read within the same cycle returns false.
pub proof fn lemma_dirty_consumed_exactly_once(m: AuthenticationManager, a: Authentication)
    ensures
        ({
            let first = spec_consume(spec_remember(m, a));
            let second = spec_consume(first.1);
            first.0 == (true, Some(a)) && !second.0.0 && second.0.1 is None
        }),
{
}

/// Clearing wins over an earlier login in the same cycle: after `remember`
/// then `forget`, the consumed record is dirty and carries no identity, so
/// the store that follows persists the deletion, never the stale value.
pub proof fn lemma_forget_overrides_remember(m: AuthenticationManager, a: Authentication)
    ensures
        ({
            let c = spec_consume(spec_forget(spec_remember(m, a)));
            c.0 == (true, Option::<Authentication>::None)
        }),
{
}

} // verus!
