//! Request-authentication middleware with a verified session codec.
//!
//! The crate centres on a cookie-based authentication layer: a session codec
//! that serialises an identity to a self-describing text payload, a cookie
//! backend that seals that payload with authenticated encryption and honours
//! cookie attributes, a per-request state container with a dirty flag, and a
//! middleware state machine that loads the identity on the way in and persists
//! mutations on the way out.  A pooled-connection execution bridge normalises
//! pool and execution failures into one error taxonomy.

pub mod authentication;
pub mod bootstrap;
pub mod bridge;
pub mod codec;
pub mod cookie;
pub mod error;
pub mod http;
pub mod middleware;
pub mod utils;

pub use authentication::{Authentication, AuthenticationManager, AuthenticationManagerInner};
pub use bridge::{BlockingOutcome, BridgeError, Database, DatabaseBuilder};
pub use cookie::CookieAuthenticationBackend;
pub use error::{AppError, DecodeError, ErrorKind};
pub use http::{Request, Response, SameSite, SetCookie};
pub use middleware::{AuthenticationBackend, AuthenticationMiddleware, AuthenticationService};
