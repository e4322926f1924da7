//! Password hashing and verification, avatar selection, and the decision at
//! the heart of login: does a stored user record together with a raw
//! password yield an authenticated identity?

use vstd::prelude::*;

use crate::authentication::{spec_dedup, Authentication};
use crate::codec::{push_dec, spec_dec_digits};
use crate::error::{AppError, ErrorKind};

verus! {

#[verifier::external_type_specification]
#[verifier::external_body]
pub struct ExBcryptError(bcrypt::BcryptError);

/// Whether bcrypt verification accepts the raw password against the stored
/// hash: a function of the two strings alone.
pub uninterp spec fn bcrypt_verifies(raw: Seq<char>, hashed: Seq<char>) -> bool;

/// Whether a stored string is a usable bcrypt hash — it parses as one and
/// carries an allowed cost — which is when verification can be run against
/// it at all: a function of the hash alone.
pub uninterp spec fn bcrypt_hash_wf(hashed: Seq<char>) -> bool;

/// Relies on `bcrypt::hash` with the default cost: the hash it returns,
/// salted as it is, is a well-formed bcrypt hash and verifies against the
/// password it was derived from.
#[verifier::external_body]
fn bcrypt_hash(password: &str) -> (r: Result<String, bcrypt::BcryptError>)
    ensures
        r matches Ok(h) ==> bcrypt_verifies(password@, h@) && bcrypt_hash_wf(h@),
{
    bcrypt::hash(password, bcrypt::DEFAULT_COST)
}

/// Relies on `bcrypt::verify`: deterministic in the password and the hash,
/// and it errs exactly when the stored hash does not parse as a bcrypt hash
/// or carries a disallowed cost — conditions on the hash alone, never on the
/// password.
#[verifier::external_body]
fn bcrypt_check(raw: &str, hashed: &str) -> (r: Result<bool, bcrypt::BcryptError>)
    ensures
        r is Ok <==> bcrypt_hash_wf(hashed@),
        r matches Ok(b) ==> b == bcrypt_verifies(raw@, hashed@),
{
    bcrypt::verify(raw, hashed)
}

/// Hashes a password for storage; whatever salt was drawn, the result is a
/// well-formed bcrypt hash that verifies against the password.
pub fn hash_password(password: &str) -> (r: Result<String, AppError>)
    ensures
        match r {
            Ok(h) => bcrypt_verifies(password@, h@) && bcrypt_hash_wf(h@),
            Err(e) => e.kind == ErrorKind::HashPasswordFailure,
        },
{
    match bcrypt_hash(password) {
        Ok(h) => Ok(h),
        Err(_) => Err(AppError::new(ErrorKind::HashPasswordFailure)),
    }
}

/// Checks a raw password against a stored hash: the verdict whenever the
/// stored hash is a usable bcrypt hash, and a hashing error exactly when it
/// is not.
pub fn verify_password(raw_password: &str, password: &str) -> (r: Result<bool, AppError>)
    ensures
        match r {
            Ok(b) => b == bcrypt_verifies(raw_password@, password@) && bcrypt_hash_wf(password@),
            Err(e) => e.kind == ErrorKind::HashPasswordFailure && !bcrypt_hash_wf(password@),
        },
{
    match bcrypt_check(raw_password, password) {
        Ok(b) => Ok(b),
        Err(_) => Err(AppError::new(ErrorKind::HashPasswordFailure)),
    }
}

/// The avatar path for a given avatar number.
pub open spec fn spec_avatar_url(n: u32) -> Seq<char> {
    "/api/images/avatars/"@ + spec_dec_digits(n as nat) + ".png"@
}

/// Renders the avatar path for one avatar number.
pub fn avatar_url(n: u32) -> (r: String)
    ensures
        r@ == spec_avatar_url(n),
{
    let mut out = "/api/images/avatars/".to_owned();
    push_dec(&mut out, n as usize);
    out.append(".png");
    proof {
        assert(out@ =~= spec_avatar_url(n));
    }
    out
}

/// Relies on `rand::random_range`: a value drawn from the given non-empty
/// range lies within it.
#[verifier::external_body]
fn random_avatar_index() -> (n: u32)
    ensures
        1 <= n < 21,
{
    rand::random_range(1u32..21)
}

/// The path of one of the twenty stock avatars, drawn at random.
pub fn random_avatar() -> (r: String)
    ensures
        exists|n: u32| 1 <= n < 21 && r@ == spec_avatar_url(n),
{
    let n = random_avatar_index();
    let r = avatar_url(n);
    proof {
        assert(1 <= n < 21 && r@ == spec_avatar_url(n));
    }
    r
}

/// A stored user, as the rest of the system needs to read it: the unique id
/// that becomes the session subject, the login name, the bcrypt password
/// hash, the display name, and the avatar path.
#[derive(Debug, Clone, PartialEq)]
pub struct UserRecord {
    pub id: String,
    pub username: String,
    pub password: String,
    pub nickname: String,
    pub avatar_url: String,
}

/// The decision at the heart of login: the identity for this user — subject
/// its id, authorities the given group names — exactly when the raw
/// password verifies against the stored hash; `Unauthorized` when it does
/// not; the hashing error exactly when the stored hash is not a usable
/// bcrypt hash.
pub fn authenticate_user(user: &UserRecord, raw_password: &str, group_names: Vec<String>) -> (r:
    Result<Authentication, AppError>)
    requires
        user.id@.len() > 0,
    ensures
        match r {
            Ok(a) => {
                &&& bcrypt_verifies(raw_password@, user.password@)
                &&& a.wf()
                &&& a.identity@ == user.id@
                &&& a.authorities.deep_view() == spec_dedup(group_names.deep_view())
            },
            Err(e) => (e.kind == ErrorKind::Unauthorized && bcrypt_hash_wf(user.password@)
                && !bcrypt_verifies(raw_password@, user.password@)) || (e.kind
                == ErrorKind::HashPasswordFailure && !bcrypt_hash_wf(user.password@)),
        },
{
    match verify_password(raw_password, user.password.as_str()) {
        Ok(true) => Ok(Authentication::new(user.id.clone(), group_names)),
        Ok(false) => Err(AppError::new(ErrorKind::Unauthorized)),
        Err(e) => Err(e),
    }
}

} // verus!
