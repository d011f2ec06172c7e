//! Authorization artifacts and upstream identity linking for an OAuth2/OIDC
//! identity provider.
//!
//! - `authorization_code`: single-use authorization codes.
//! - `cookie`: the signed cookie that tracks in-flight upstream logins.
//! - `claims` and `mapping`: upstream claims and the attribute templates
//!   rendered from them.
//! - `link`: the decisions taken when an upstream login comes back on a link.
//! - `repository`: the tables one request reads and writes.
//! - `user_email`: managing a user's email addresses.
pub mod authorization_code;
pub mod claims;
pub mod codec;
pub mod cookie;
pub mod error;
pub mod ids;
pub mod link;
pub mod mapping;
pub mod model;
pub mod policy;
pub mod repository;
pub mod user_email;
