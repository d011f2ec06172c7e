//! Decisions of the policy engine, as data.
//!
//! The engine itself runs outside the library; its decisions come back as a
//! list of violations, each scoped to a form field or to the whole form.
use vstd::prelude::*;

verus! {

/// One reason the policy denies a request.
#[derive(Debug, Clone, PartialEq, Eq)]
pub struct Violation {
    pub msg: String,
    pub code: Option<String>,
    pub field: Option<String>,
}

/// What the policy engine decided.
#[derive(Debug, Clone, PartialEq, Eq)]
pub struct PolicyDecision {
    pub violations: Vec<Violation>,
}

impl PolicyDecision {
    /// Whether the request is allowed: no violation.
    pub fn valid(&self) -> (r: bool)
        ensures
            r == (self.violations@.len() == 0),
    {
        self.violations.len() == 0
    }
}

/// How an account is being registered.
#[derive(Debug, Clone, Copy, PartialEq, Eq)]
pub enum RegistrationMethod {
    Password,
    UpstreamOAuth2,
}

/// Who sends a request.
#[derive(Debug, Clone, PartialEq, Eq)]
pub struct Requester {
    pub ip_address: Option<String>,
    pub user_agent: Option<String>,
}

/// What the policy engine is asked about a registration.
#[derive(Debug, Clone, PartialEq, Eq)]
pub struct RegisterInput {
    pub registration_method: RegistrationMethod,
    pub username: String,
    pub email: Option<String>,
    pub requester: Requester,
}

} // verus!
