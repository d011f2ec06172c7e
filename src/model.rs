//! The entities: users, their emails and browser sessions, and the upstream
//! providers, links and sessions of federated login.
//!
//! Identifiers are ULIDs (see `ids`); timestamps are milliseconds since the
//! Unix epoch; user agents and addresses are kept as their text.
use vstd::prelude::*;

use crate::claims::Claims;
use crate::ids::{mint, spec_mint};
use crate::mapping::ClaimsImports;

verus! {

/// A local account.
#[derive(Debug, Clone, PartialEq, Eq)]
pub struct User {
    pub id: u128,
    pub username: String,
    pub sub: String,
    pub created_at: u64,
    pub locked_at: Option<u64>,
    pub can_request_admin: bool,
}

impl User {
    /// Returns `true` unless the user is locked.
    pub fn is_valid(&self) -> (r: bool)
        ensures
            r == self.locked_at.is_none(),
    {
        self.locked_at.is_none()
    }

    /// A copy of the user.
    pub fn duplicate(&self) -> (r: User)
        ensures
            r == *self,
    {
        User {
            id: self.id,
            username: self.username.clone(),
            sub: self.sub.clone(),
            created_at: self.created_at,
            locked_at: self.locked_at,
            can_request_admin: self.can_request_admin,
        }
    }

    /// Sample users, created at `now`, identified from `random`.
    pub fn samples(now: u64, random: u128) -> (r: Vec<User>)
        ensures
            r@.len() == 1,
            r@[0].id == spec_mint(now, random, 0),
            r@[0].username@ == "john"@,
            r@[0].sub@ == "123-456"@,
            r@[0].created_at == now,
            r@[0].locked_at is None,
            !r@[0].can_request_admin,
    {
        vec![User {
            id: mint(now, random, 0),
            username: "john".to_owned(),
            sub: "123-456".to_owned(),
            created_at: now,
            locked_at: None,
            can_request_admin: false,
        }]
    }
}

/// A password of a user, stored hashed.
#[derive(Debug, Clone, PartialEq, Eq)]
pub struct Password {
    pub id: u128,
    pub hashed_password: String,
    pub version: u16,
    pub upgraded_from_id: Option<u128>,
    pub created_at: u64,
}

/// One authentication of a browser session.
#[derive(Debug, Clone, PartialEq, Eq)]
pub struct Authentication {
    pub id: u128,
    pub created_at: u64,
    pub authentication_method: AuthenticationMethod,
}

/// How a browser session was authenticated.
#[derive(Debug, Clone, Copy, PartialEq, Eq)]
pub enum AuthenticationMethod {
    Password { user_password_id: u128 },
    UpstreamOAuth2 { upstream_oauth2_session_id: u128 },
    Unknown,
}

/// A session to recover a user who lost their credentials.
#[derive(Debug, Clone, PartialEq, Eq)]
pub struct UserRecoverySession {
    pub id: u128,
    pub email: String,
    pub user_agent: String,
    pub ip_address: Option<String>,
    pub locale: String,
    pub created_at: u64,
    pub consumed_at: Option<u64>,
}

/// One recovery ticket, sent by email, of a recovery session.
#[derive(Debug, Clone, PartialEq, Eq)]
pub struct UserRecoveryTicket {
    pub id: u128,
    pub user_recovery_session_id: u128,
    pub user_email_id: u128,
    pub ticket: String,
    pub created_at: u64,
    pub expires_at: u64,
}

impl UserRecoveryTicket {
    /// Whether the ticket has not expired at `now`.
    pub fn active(&self, now: u64) -> (r: bool)
        ensures
            r == (now < self.expires_at),
    {
        now < self.expires_at
    }
}

/// An email authentication session.
#[derive(Debug, Clone, PartialEq, Eq)]
pub struct UserEmailAuthentication {
    pub id: u128,
    pub user_session_id: Option<u128>,
    pub email: String,
    pub created_at: u64,
    pub completed_at: Option<u64>,
}

/// A code sent for an email authentication session.
#[derive(Debug, Clone, PartialEq, Eq)]
pub struct UserEmailAuthenticationCode {
    pub id: u128,
    pub user_email_authentication_id: u128,
    pub code: String,
    pub created_at: u64,
    pub expires_at: u64,
}

/// A login of a user in one browser.
#[derive(Debug, Clone, PartialEq, Eq)]
pub struct BrowserSession {
    pub id: u128,
    pub user: User,
    pub created_at: u64,
    pub finished_at: Option<u64>,
    pub user_agent: Option<String>,
    pub last_active_at: Option<u64>,
    pub last_active_ip: Option<String>,
}

/// Whether a browser session is active: not finished, and its user not locked.
pub open spec fn spec_session_active(s: BrowserSession) -> bool {
    s.finished_at is None && s.user.locked_at is None
}

impl BrowserSession {
    /// Whether the session is neither finished nor held by a locked user.
    pub fn active(&self) -> (r: bool)
        ensures
            r == spec_session_active(*self),
    {
        self.finished_at.is_none() && self.user.is_valid()
    }

    /// Sample sessions, one per sample user, active and last seen at `now`.
    pub fn samples(now: u64, random: u128) -> (r: Vec<BrowserSession>)
        ensures
            r@.len() == 1,
            r@[0].user.id == spec_mint(now, random, 0),
            r@[0].user.username@ == "john"@,
            r@[0].user.sub@ == "123-456"@,
            r@[0].finished_at is None,
            r@[0].user_agent matches Some(a) && a@ == "Mozilla/5.0 (Windows NT 10.0; Win64; x64) AppleWebKit/537.36 (KHTML, like Gecko) Chrome/93.0.0.0 Safari/537.36"@,
            r@[0].id == spec_mint(now, random, 1),
            r@[0].created_at == now,
            r@[0].last_active_at == Some(now),
            spec_session_active(r@[0]),
    {
        let users = User::samples(now, random);
        let user = users[0].duplicate();
        let agent = "Mozilla/5.0 (Windows NT 10.0; Win64; x64) AppleWebKit/537.36 (KHTML, like Gecko) Chrome/93.0.0.0 Safari/537.36".to_owned();
        vec![BrowserSession {
            id: mint(now, random, 1),
            user,
            created_at: now,
            finished_at: None,
            user_agent: Some(agent),
            last_active_at: Some(now),
            last_active_ip: None,
        }]
    }

    /// A copy of the session.
    pub fn duplicate(&self) -> (r: BrowserSession)
        ensures
            r == *self,
    {
        BrowserSession {
            id: self.id,
            user: self.user.duplicate(),
            created_at: self.created_at,
            finished_at: self.finished_at,
            user_agent: self.user_agent.clone(),
            last_active_at: self.last_active_at,
            last_active_ip: self.last_active_ip.clone(),
        }
    }
}

/// An email address of a user.
#[derive(Debug, Clone, PartialEq, Eq)]
pub struct UserEmail {
    pub id: u128,
    pub user_id: u128,
    pub email: String,
    pub created_at: u64,
}

impl UserEmail {
    /// Sample emails of two distinct users, created at `now`.
    pub fn samples(now: u64, random: u128) -> (r: Vec<UserEmail>)
        ensures
            r@.len() == 2,
            r@[0].id == spec_mint(now, random, 0) && r@[0].user_id == spec_mint(now, random, 1),
            r@[1].id == spec_mint(now, random, 2) && r@[1].user_id == spec_mint(now, random, 3),
            r@[0].email@ == "alice@example.com"@ && r@[1].email@ == "bob@example.com"@,
            r@[0].created_at == now && r@[1].created_at == now,
    {
        vec![
            UserEmail {
                id: mint(now, random, 0),
                user_id: mint(now, random, 1),
                email: "alice@example.com".to_owned(),
                created_at: now,
            },
            UserEmail {
                id: mint(now, random, 2),
                user_id: mint(now, random, 3),
                email: "bob@example.com".to_owned(),
                created_at: now,
            },
        ]
    }

    /// A copy of the email.
    pub fn duplicate(&self) -> (r: UserEmail)
        ensures
            r == *self,
    {
        UserEmail {
            id: self.id,
            user_id: self.user_id,
            email: self.email.clone(),
            created_at: self.created_at,
        }
    }
}

/// An upstream identity provider.
#[derive(Debug, Clone, PartialEq, Eq)]
pub struct UpstreamOAuthProvider {
    pub id: u128,
    pub issuer: Option<String>,
    pub human_name: Option<String>,
    pub client_id: String,
    pub claims_imports: ClaimsImports,
    pub created_at: u64,
}

/// The binding of an upstream subject to a local user, once decided.
#[derive(Debug, Clone, PartialEq, Eq)]
pub struct UpstreamOAuthLink {
    pub id: u128,
    pub provider_id: u128,
    pub subject: String,
    pub user_id: Option<u128>,
    pub created_at: u64,
}

/// One federated login attempt.
#[derive(Debug, Clone, PartialEq, Eq)]
pub struct UpstreamOAuthSession {
    pub id: u128,
    pub provider_id: u128,
    pub state: String,
    pub nonce: String,
    pub link_id: Option<u128>,
    pub id_token_claims: Option<Claims>,
    pub extra_callback_parameters: Option<Claims>,
    pub userinfo: Option<Claims>,
    pub created_at: u64,
    pub consumed_at: Option<u64>,
}

impl UpstreamOAuthSession {
    /// Whether the attempt was already consumed.
    pub fn is_consumed(&self) -> (r: bool)
        ensures
            r == self.consumed_at is Some,
    {
        self.consumed_at.is_some()
    }
}

} // verus!
