//! Plain models of the transport values the authentication layer reads and
//! writes: the inbound cookies of a request, and the status and `Set-Cookie`
//! headers of a response.  The surrounding server turns real requests and
//! responses into these values and back; the library's contracts speak of
//! nothing else.

use vstd::prelude::*;

use crate::error::{spec_status_code, AppError};

verus! {

/// The `SameSite` cookie attribute.  `CrossSite` is rendered on the wire as
/// `SameSite=None`.
#[derive(Clone, Copy, Debug, PartialEq, Eq, Structural)]
pub enum SameSite {
    Strict,
    Lax,
    CrossSite,
}

/// The inbound side of one request, as the middleware sees it: the cookies
/// the client sent, as name/value pairs in order.
#[derive(Debug, Clone)]
pub struct Request {
    pub cookies: Vec<(String, String)>,
}

impl Request {
    /// A request carrying no cookies.
    pub fn new() -> (r: Request)
        ensures
            r.cookies@.len() == 0,
    {
        Request { cookies: Vec::new() }
    }
}

/// One `Set-Cookie` header, structurally: the attributes are carried as
/// values so that contracts can speak of them; rendering to header text is
/// the server's business.
#[derive(Debug, Clone, PartialEq)]
pub struct SetCookie {
    pub name: String,
    pub value: String,
    pub path: String,
    pub domain: Option<String>,
    pub secure: bool,
    pub http_only: bool,
    /// Lifetime in seconds; `Some(0)` forces client-side deletion.
    pub max_age: Option<i64>,
    pub same_site: Option<SameSite>,
}

/// A cookie in the delete form: empty value and `Max-Age=0`, which forces
/// the client to drop any previously issued credential of that name.
pub open spec fn is_delete_form(c: SetCookie) -> bool {
    c.value@ == Seq::<char>::empty() && c.max_age == Some(0i64)
}

/// The outbound side of one request: the status and the `Set-Cookie`
/// headers appended so far.
#[derive(Debug, Clone)]
pub struct Response {
    pub status: u16,
    pub cookies: Vec<SetCookie>,
}

impl Response {
    /// A response with the given status and no cookies.
    pub fn with_status(status: u16) -> (r: Response)
        ensures
            r.status == status,
            r.cookies@.len() == 0,
    {
        Response { status, cookies: Vec::new() }
    }

    /// A `200 OK` response with no cookies.
    pub fn ok() -> (r: Response)
        ensures
            r.status == 200,
            r.cookies@.len() == 0,
    {
        Response::with_status(200)
    }
}

impl AppError {
    /// The response this error degrades to: its status code and no cookies.
    pub fn error_response(&self) -> (r: Response)
        ensures
            r.status == spec_status_code(self.kind),
            r.cookies@.len() == 0,
    {
        Response::with_status(self.status_code())
    }
}

} // verus!
