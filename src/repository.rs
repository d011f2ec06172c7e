//! The unit of work of one request: the tables it reads and writes.
//!
//! A request works on a `Repository` value. On success the caller keeps the
//! value the operations left; on error every operation here leaves it as it
//! was, so dropping the request aborts it.
use vstd::prelude::*;

use crate::model::{
    spec_session_active, Authentication, AuthenticationMethod, BrowserSession, UpstreamOAuthLink, UpstreamOAuthProvider, UpstreamOAuthSession,
    User, UserEmail,
};

verus! {

/// A repository whose errors are mapped by `mapper`.
pub struct MapErr<R, F> {
    pub inner: R,
    pub mapper: F,
}

impl<R, F> MapErr<R, F> {
    /// Wraps `inner`, mapping its errors with `mapper`.
    pub fn new(inner: R, mapper: F) -> (r: Self)
        ensures
            r.inner == inner,
            r.mapper == mapper,
    {
        MapErr { inner, mapper }
    }
}

/// An upstream session was consumed already.
#[derive(Debug, Clone, Copy, PartialEq, Eq)]
pub struct AlreadyConsumed;

/// A user's acceptance of the terms of service at a given address.
#[derive(Debug, Clone, PartialEq, Eq)]
pub struct TermsAcceptance {
    pub id: u128,
    pub user_id: u128,
    pub terms_url: String,
    pub accepted_at: u64,
}

/// A job that provisions a user on the homeserver.
#[derive(Debug, Clone, PartialEq, Eq)]
pub struct ProvisionUserJob {
    pub id: u128,
    pub user_id: u128,
    pub display_name: Option<String>,
    pub scheduled_at: u64,
}

/// An authentication recorded on a browser session.
#[derive(Debug, Clone, PartialEq, Eq)]
pub struct SessionAuthentication {
    pub browser_session_id: u128,
    pub authentication: Authentication,
}

/// The tables of the identity provider.
#[derive(Debug, Clone, PartialEq, Eq)]
pub struct Repository {
    pub users: Vec<User>,
    pub user_emails: Vec<UserEmail>,
    pub browser_sessions: Vec<BrowserSession>,
    pub session_authentications: Vec<SessionAuthentication>,
    pub providers: Vec<UpstreamOAuthProvider>,
    pub links: Vec<UpstreamOAuthLink>,
    pub upstream_sessions: Vec<UpstreamOAuthSession>,
    pub terms_acceptances: Vec<TermsAcceptance>,
    pub jobs: Vec<ProvisionUserJob>,
}

/// The contents of the tables.
pub ghost struct RepositoryView {
    pub users: Seq<User>,
    pub user_emails: Seq<UserEmail>,
    pub browser_sessions: Seq<BrowserSession>,
    pub session_authentications: Seq<SessionAuthentication>,
    pub providers: Seq<UpstreamOAuthProvider>,
    pub links: Seq<UpstreamOAuthLink>,
    pub upstream_sessions: Seq<UpstreamOAuthSession>,
    pub terms_acceptances: Seq<TermsAcceptance>,
    pub jobs: Seq<ProvisionUserJob>,
}

impl View for Repository {
    type V = RepositoryView;

    open spec fn view(&self) -> RepositoryView {
        RepositoryView {
            users: self.users@,
            user_emails: self.user_emails@,
            browser_sessions: self.browser_sessions@,
            session_authentications: self.session_authentications@,
            providers: self.providers@,
            links: self.links@,
            upstream_sessions: self.upstream_sessions@,
            terms_acceptances: self.terms_acceptances@,
            jobs: self.jobs@,
        }
    }
}

/// The tables after consuming upstream session `i` at `now`; `None` when it
/// was consumed already.
pub open spec fn consume_step(v: RepositoryView, i: int, now: u64) -> Option<RepositoryView> {
    if v.upstream_sessions[i].consumed_at is Some {
        None
    } else {
        Some(
            RepositoryView {
                upstream_sessions: v.upstream_sessions.update(
                    i,
                    UpstreamOAuthSession { consumed_at: Some(now), ..v.upstream_sessions[i] },
                ),
                ..v
            },
        )
    }
}


/// `r` is the position of the first row of `s` that satisfies `p`, or `None`
/// when no row does.
pub open spec fn first_match<T>(s: Seq<T>, p: spec_fn(T) -> bool, r: Option<usize>) -> bool {
    match r {
        Some(i) => i < s.len() && p(s[i as int]) && forall|j: int| 0 <= j < i ==> !p(#[trigger] s[j]),
        None => forall|j: int| 0 <= j < s.len() ==> !p(#[trigger] s[j]),
    }
}

/// Whether some user is called `username`.
pub open spec fn has_username(users: Seq<User>, username: Seq<char>) -> bool {
    exists|j: int| 0 <= j < users.len() && #[trigger] users[j].username@ == username
}

/// The digits of Crockford base32.
pub open spec fn crockford_alphabet() -> Seq<char> {
    seq!['0', '1', '2', '3', '4', '5', '6', '7', '8', '9', 'A', 'B', 'C', 'D', 'E', 'F', 'G', 'H', 'J', 'K', 'M', 'N', 'P', 'Q', 'R', 'S', 'T', 'V', 'W', 'X', 'Y', 'Z']
}

/// The text of an identifier: 26 Crockford base32 digits, most significant
/// first.
pub open spec fn ulid_text(id: u128) -> Seq<char> {
    Seq::new(
        26,
        |k: int| crockford_alphabet()[(id as int / vstd::arithmetic::power2::pow2((5 * (25 - k)) as nat) as int) % 32],
    )
}

/// Relies on `ulid::Ulid::to_string`: the identifier's five-bit groups,
/// most significant first, each written as a Crockford base32 digit.
#[verifier::external_body]
fn ulid_string(id: u128) -> (r: String)
    ensures
        r@ == ulid_text(id),
{
    ulid::Ulid(id).to_string()
}


/// The position of the first row of `s` that satisfies `p`.
pub open spec fn find_first<T>(s: Seq<T>, p: spec_fn(T) -> bool) -> Option<int>
    decreases s.len(),
{
    if s.len() == 0 {
        None
    } else {
        match find_first(s.drop_last(), p) {
            Some(i) => Some(i),
            None => if p(s.last()) {
                Some(s.len() - 1)
            } else {
                None
            },
        }
    }
}

/// The position a search returned, as an integer.
pub open spec fn as_pos(r: Option<usize>) -> Option<int> {
    match r {
        Some(i) => Some(i as int),
        None => None,
    }
}

/// A search that returns the first match computes `find_first`.
pub proof fn lemma_find_first<T>(s: Seq<T>, p: spec_fn(T) -> bool, r: Option<usize>)
    requires
        first_match(s, p, r),
    ensures
        find_first(s, p) == as_pos(r),
        find_first(s, p) matches Some(i) ==> 0 <= i < s.len() && p(s[i]),
    decreases s.len(),
{
    if s.len() > 0 {
        let t = s.drop_last();
        match r {
            Some(i) => {
                if (i as int) < s.len() - 1 {
                    assert(first_match(t, p, Some(i)));
                    lemma_find_first(t, p, Some(i));
                } else {
                    assert(first_match(t, p, None));
                    lemma_find_first(t, p, None);
                }
            },
            None => {
                assert(first_match(t, p, None));
                lemma_find_first(t, p, None);
            },
        }
    }
}

/// A position found by `find_first` is in range and satisfies `p`.
pub proof fn lemma_find_first_found<T>(s: Seq<T>, p: spec_fn(T) -> bool)
    ensures
        find_first(s, p) matches Some(i) ==> 0 <= i < s.len() && p(s[i]),
    decreases s.len(),
{
    if s.len() > 0 {
        lemma_find_first_found(s.drop_last(), p);
        if let Some(i) = find_first(s.drop_last(), p) {
            assert(s.drop_last()[i] == s[i]);
        }
    }
}

/// Searching two lists whose rows agree on `p`, row by row, finds the same
/// position.
pub proof fn lemma_find_first_congruent<T>(s: Seq<T>, t: Seq<T>, p: spec_fn(T) -> bool)
    requires
        s.len() == t.len(),
        forall|k: int| 0 <= k < s.len() ==> p(#[trigger] s[k]) == p(t[k]),
    ensures
        find_first(s, p) == find_first(t, p),
    decreases s.len(),
{
    if s.len() > 0 {
        let (a, b) = (s.drop_last(), t.drop_last());
        assert forall|k: int| 0 <= k < a.len() implies p(#[trigger] a[k]) == p(b[k]) by {
            assert(a[k] == s[k] && b[k] == t[k]);
        }
        lemma_find_first_congruent(a, b, p);
        assert(p(s.last()) == p(t.last())) by {
            assert(s.last() == s[s.len() - 1] && t.last() == t[t.len() - 1]);
        }
    }
}

/// The active browser session that a session cookie names.
pub open spec fn spec_load_session(v: RepositoryView, id: Option<u128>) -> Option<BrowserSession> {
    match id {
        None => None,
        Some(id) => match find_first(v.browser_sessions, |b: BrowserSession| b.id == id) {
            Some(i) => if spec_session_active(v.browser_sessions[i]) {
                Some(v.browser_sessions[i])
            } else {
                None
            },
            None => None,
        },
    }
}

/// The position of the valid user with identifier `id`.
pub open spec fn valid_user(v: RepositoryView, id: u128) -> Option<int> {
    match find_first(v.users, |u: User| u.id == id) {
        Some(i) => if v.users[i].locked_at is None {
            Some(i)
        } else {
            None
        },
        None => None,
    }
}

/// The tables with one more authentication of a browser session.
pub open spec fn with_authentication(
    v: RepositoryView,
    browser_session_id: u128,
    upstream_session_id: u128,
    now: u64,
    id: u128,
) -> RepositoryView {
    RepositoryView {
        session_authentications: v.session_authentications.push(
            SessionAuthentication {
                browser_session_id,
                authentication: Authentication {
                    id,
                    created_at: now,
                    authentication_method: AuthenticationMethod::UpstreamOAuth2 {
                        upstream_oauth2_session_id: upstream_session_id,
                    },
                },
            },
        ),
        ..v
    }
}

/// The browser session opened for `user`.
pub open spec fn new_browser_session(user: User, now: u64, id: u128, user_agent: Option<String>) -> BrowserSession {
    BrowserSession {
        id,
        user,
        created_at: now,
        finished_at: None,
        user_agent,
        last_active_at: None,
        last_active_ip: None,
    }
}

/// The tables with link `i` bound to `user_id`.
pub open spec fn with_link_bound(v: RepositoryView, i: int, user_id: u128) -> RepositoryView {
    RepositoryView {
        links: v.links.update(i, UpstreamOAuthLink { user_id: Some(user_id), ..v.links[i] }),
        ..v
    }
}

/// Consuming an upstream session succeeds once: consuming it again, at any
/// time, fails and changes nothing.
pub proof fn lemma_session_consumed_once(v: RepositoryView, i: int, first: u64, second: u64)
    requires
        0 <= i < v.upstream_sessions.len(),
        v.upstream_sessions[i].consumed_at is None,
    ensures
        consume_step(v, i, first) is Some,
        consume_step(consume_step(v, i, first)->0, i, second) is None,
{
}

impl Repository {
    /// Marks upstream session `i` as consumed at `now`; fails, changing
    /// nothing, when it already was.
    pub fn consume_upstream_session(&mut self, i: usize, now: u64) -> (r: Result<(), AlreadyConsumed>)
        requires
            i < old(self).upstream_sessions@.len(),
        ensures
            match consume_step(old(self)@, i as int, now) {
                Some(v) => r is Ok && final(self)@ == v,
                None => r == Err::<(), AlreadyConsumed>(AlreadyConsumed) && final(self)@ == old(self)@,
            },
    {
        if self.upstream_sessions[i].is_consumed() {
            return Err(AlreadyConsumed);
        }
        self.upstream_sessions[i].consumed_at = Some(now);
        Ok(())
    }

    /// The first link with identifier `id`.
    pub fn find_link(&self, id: u128) -> (r: Option<usize>)
        ensures
            first_match(self.links@, |l: UpstreamOAuthLink| l.id == id, r),
    {
        let mut i: usize = 0;
        while i < self.links.len()
            invariant
                i <= self.links.len(),
                forall|j: int| 0 <= j < i ==> (#[trigger] self.links@[j]).id != id,
            decreases self.links.len() - i,
        {
            if self.links[i].id == id {
                return Some(i);
            }
            i += 1;
        }
        None
    }

    /// The first upstream session with identifier `id`.
    pub fn find_upstream_session(&self, id: u128) -> (r: Option<usize>)
        ensures
            first_match(self.upstream_sessions@, |s: UpstreamOAuthSession| s.id == id, r),
    {
        let mut i: usize = 0;
        while i < self.upstream_sessions.len()
            invariant
                i <= self.upstream_sessions.len(),
                forall|j: int| 0 <= j < i ==> (#[trigger] self.upstream_sessions@[j]).id != id,
            decreases self.upstream_sessions.len() - i,
        {
            if self.upstream_sessions[i].id == id {
                return Some(i);
            }
            i += 1;
        }
        None
    }

    /// The first provider with identifier `id`.
    pub fn find_provider(&self, id: u128) -> (r: Option<usize>)
        ensures
            first_match(self.providers@, |p: UpstreamOAuthProvider| p.id == id, r),
    {
        let mut i: usize = 0;
        while i < self.providers.len()
            invariant
                i <= self.providers.len(),
                forall|j: int| 0 <= j < i ==> (#[trigger] self.providers@[j]).id != id,
            decreases self.providers.len() - i,
        {
            if self.providers[i].id == id {
                return Some(i);
            }
            i += 1;
        }
        None
    }

    /// The first user with identifier `id`.
    pub fn find_user(&self, id: u128) -> (r: Option<usize>)
        ensures
            first_match(self.users@, |u: User| u.id == id, r),
    {
        let mut i: usize = 0;
        while i < self.users.len()
            invariant
                i <= self.users.len(),
                forall|j: int| 0 <= j < i ==> (#[trigger] self.users@[j]).id != id,
            decreases self.users.len() - i,
        {
            if self.users[i].id == id {
                return Some(i);
            }
            i += 1;
        }
        None
    }

    /// The first user called `username`.
    pub fn find_user_by_username(&self, username: &String) -> (r: Option<usize>)
        ensures
            first_match(self.users@, |u: User| u.username@ == username@, r),
            r is Some <==> has_username(self.users@, username@),
    {
        let mut i: usize = 0;
        while i < self.users.len()
            invariant
                i <= self.users.len(),
                forall|j: int| 0 <= j < i ==> (#[trigger] self.users@[j]).username@ != username@,
            decreases self.users.len() - i,
        {
            if self.users[i].username == *username {
                return Some(i);
            }
            i += 1;
        }
        None
    }

    /// Whether a user is called `username`.
    pub fn user_exists(&self, username: &String) -> (r: bool)
        ensures
            r == has_username(self.users@, username@),
    {
        self.find_user_by_username(username).is_some()
    }

    /// The first browser session with identifier `id`.
    pub fn find_browser_session(&self, id: u128) -> (r: Option<usize>)
        ensures
            first_match(self.browser_sessions@, |s: BrowserSession| s.id == id, r),
    {
        let mut i: usize = 0;
        while i < self.browser_sessions.len()
            invariant
                i <= self.browser_sessions.len(),
                forall|j: int| 0 <= j < i ==> (#[trigger] self.browser_sessions@[j]).id != id,
            decreases self.browser_sessions.len() - i,
        {
            if self.browser_sessions[i].id == id {
                return Some(i);
            }
            i += 1;
        }
        None
    }

    /// The browser session that the session cookie names, when it is active.
    pub fn load_session(&self, id: Option<u128>) -> (r: Option<BrowserSession>)
        ensures
            r == spec_load_session(self@, id),
    {
        match id {
            None => None,
            Some(id) => {
                let found = self.find_browser_session(id);
                proof {
                    lemma_find_first(self.browser_sessions@, |b: BrowserSession| b.id == id, found);
                }
                match found {
                    None => None,
                    Some(i) => {
                        if self.browser_sessions[i].active() {
                            Some(self.browser_sessions[i].duplicate())
                        } else {
                            None
                        }
                    },
                }
            },
        }
    }

    /// The position of the valid user with identifier `id`.
    pub fn find_valid_user(&self, id: u128) -> (r: Option<usize>)
        ensures
            as_pos(r) == valid_user(self@, id),
            r matches Some(i) ==> i < self@.users.len(),
    {
        let found = self.find_user(id);
        proof {
            lemma_find_first(self.users@, |u: User| u.id == id, found);
        }
        match found {
            Some(i) => {
                if self.users[i].is_valid() {
                    Some(i)
                } else {
                    None
                }
            },
            None => None,
        }
    }

    /// Opens a browser session for `user`.
    pub fn add_browser_session(&mut self, user: &User, now: u64, id: u128, user_agent: Option<String>)
        ensures
            final(self)@ == (RepositoryView {
                browser_sessions: old(self)@.browser_sessions.push(
                    BrowserSession {
                        id,
                        user: *user,
                        created_at: now,
                        finished_at: None,
                        user_agent,
                        last_active_at: None,
                        last_active_ip: None,
                    },
                ),
                ..old(self)@
            }),
    {
        self.browser_sessions.push(
            BrowserSession {
                id,
                user: user.duplicate(),
                created_at: now,
                finished_at: None,
                user_agent,
                last_active_at: None,
                last_active_ip: None,
            },
        );
    }

    /// Records that a browser session was authenticated by an upstream session.
    pub fn authenticate_with_upstream(
        &mut self,
        browser_session_id: u128,
        upstream_session_id: u128,
        now: u64,
        id: u128,
    )
        ensures
            final(self)@ == (RepositoryView {
                session_authentications: old(self)@.session_authentications.push(
                    SessionAuthentication {
                        browser_session_id,
                        authentication: Authentication {
                            id,
                            created_at: now,
                            authentication_method: AuthenticationMethod::UpstreamOAuth2 {
                                upstream_oauth2_session_id: upstream_session_id,
                            },
                        },
                    },
                ),
                ..old(self)@
            }),
    {
        self.session_authentications.push(
            SessionAuthentication {
                browser_session_id,
                authentication: Authentication {
                    id,
                    created_at: now,
                    authentication_method: AuthenticationMethod::UpstreamOAuth2 {
                        upstream_oauth2_session_id: upstream_session_id,
                    },
                },
            },
        );
    }

    /// Binds link `i` to `user_id`.
    pub fn associate_to_user(&mut self, i: usize, user_id: u128)
        requires
            i < old(self).links@.len(),
        ensures
            final(self)@ == (RepositoryView {
                links: old(self)@.links.update(
                    i as int,
                    UpstreamOAuthLink { user_id: Some(user_id), ..old(self)@.links[i as int] },
                ),
                ..old(self)@
            }),
    {
        self.links[i].user_id = Some(user_id);
    }

    /// Creates a user called `username`.
    pub fn add_user(&mut self, username: String, now: u64, id: u128) -> (r: User)
        ensures
            r.id == id,
            r.username@ == username@,
            r.sub@ == ulid_text(id),
            r.created_at == now,
            r.locked_at is None,
            !r.can_request_admin,
            final(self)@ == (RepositoryView { users: old(self)@.users.push(r), ..old(self)@ }),
    {
        let user = User {
            id,
            username,
            sub: ulid_string(id),
            created_at: now,
            locked_at: None,
            can_request_admin: false,
        };
        self.users.push(user.duplicate());
        user
    }

    /// Adds an email address to a user.
    pub fn add_user_email(&mut self, user_id: u128, email: String, now: u64, id: u128) -> (r: UserEmail)
        ensures
            r == (UserEmail { id, user_id, email, created_at: now }),
            final(self)@ == (RepositoryView { user_emails: old(self)@.user_emails.push(r), ..old(self)@ }),
    {
        let e = UserEmail { id, user_id, email, created_at: now };
        self.user_emails.push(e.duplicate());
        e
    }

    /// Records that a user accepted the terms at `terms_url`.
    pub fn accept_terms(&mut self, user_id: u128, terms_url: String, now: u64, id: u128)
        ensures
            final(self)@ == (RepositoryView {
                terms_acceptances: old(self)@.terms_acceptances.push(
                    TermsAcceptance { id, user_id, terms_url, accepted_at: now },
                ),
                ..old(self)@
            }),
    {
        self.terms_acceptances.push(TermsAcceptance { id, user_id, terms_url, accepted_at: now });
    }

    /// Schedules a provisioning job.
    pub fn schedule_job(&mut self, job: ProvisionUserJob)
        ensures
            final(self)@ == (RepositoryView { jobs: old(self)@.jobs.push(job), ..old(self)@ }),
    {
        self.jobs.push(job);
    }
}

} // verus!
