//! Managing a user's email addresses: add, remove, verify, and the payloads
//! each operation answers with.
use vstd::prelude::*;

use crate::ids::{mint, spec_mint};
use crate::model::{User, UserEmail};
use crate::policy::{PolicyDecision, Violation};
use crate::repository::{
    as_pos, find_first, lemma_find_first, valid_user, ProvisionUserJob, Repository, RepositoryView,
};

verus! {

/// Whether a text is a well-formed email address.
pub uninterp spec fn is_email_address(s: Seq<char>) -> bool;

/// Relies on `lettre::Address`'s `FromStr`: it accepts exactly the
/// well-formed addresses, a property of the text alone.
#[verifier::external_body]
fn parse_address(s: &str) -> (r: bool)
    ensures
        r == is_email_address(s@),
{
    s.parse::<lettre::Address>().is_ok()
}

/// Who performs a mutation.
#[derive(Debug, Clone, Copy, PartialEq, Eq)]
pub enum Requester {
    Anonymous,
    User { user_id: u128, is_admin: bool },
}

impl Requester {
    /// Whether the requester is an administrator.
    pub fn is_admin(&self) -> (r: bool)
        ensures
            r == (*self matches Requester::User { is_admin, .. } && is_admin),
    {
        match self {
            Requester::User { is_admin, .. } => *is_admin,
            Requester::Anonymous => false,
        }
    }

    /// Whether the requester is the user `owner`, or an administrator.
    pub fn is_owner_or_admin(&self, owner: u128) -> (r: bool)
        ensures
            r == (*self matches Requester::User { user_id, is_admin } && (is_admin || user_id == owner)),
    {
        match self {
            Requester::User { user_id, is_admin } => *is_admin || *user_id == owner,
            Requester::Anonymous => false,
        }
    }
}

/// Why a mutation was refused.
#[derive(Debug, Clone, Copy, PartialEq, Eq)]
pub enum MutationError {
    Unauthorized,
    UserNotFound,
    UserEmailNotFound,
}

/// The status of adding an email address.
#[derive(Debug, Clone, Copy, PartialEq, Eq)]
pub enum AddEmailStatus {
    /// The email address was added.
    Added,
    /// The email address already exists.
    Exists,
    /// The email address is invalid.
    Invalid,
    /// The email address is not allowed by the policy.
    Denied,
}

/// The answer to adding an email address.
#[derive(Debug, Clone, PartialEq, Eq)]
pub enum AddEmailPayload {
    Added(UserEmail),
    Exists(UserEmail),
    Invalid,
    Denied { violations: Vec<Violation> },
}

/// The user an email belongs to, if the repository has them.
fn owner_of(repo: &Repository, user_id: u128) -> (r: Result<Option<User>, MutationError>)
    ensures
        match find_first(repo@.users, |u: User| u.id == user_id) {
            Some(i) => r == Ok::<Option<User>, MutationError>(Some(repo@.users[i])),
            None => r == Err::<Option<User>, MutationError>(MutationError::UserNotFound),
        },
{
    let found = repo.find_user(user_id);
    proof {
        lemma_find_first(repo.users@, |u: User| u.id == user_id, found);
    }
    match found {
        Some(i) => Ok(Some(repo.users[i].duplicate())),
        None => Err(MutationError::UserNotFound),
    }
}

impl AddEmailPayload {
    /// The status of the operation.
    pub fn status(&self) -> (r: AddEmailStatus)
        ensures
            r == match *self {
                AddEmailPayload::Added(_) => AddEmailStatus::Added,
                AddEmailPayload::Exists(_) => AddEmailStatus::Exists,
                AddEmailPayload::Invalid => AddEmailStatus::Invalid,
                AddEmailPayload::Denied { .. } => AddEmailStatus::Denied,
            },
    {
        match self {
            AddEmailPayload::Added(_) => AddEmailStatus::Added,
            AddEmailPayload::Exists(_) => AddEmailStatus::Exists,
            AddEmailPayload::Invalid => AddEmailStatus::Invalid,
            AddEmailPayload::Denied { .. } => AddEmailStatus::Denied,
        }
    }

    /// The email address that was added, or that already existed.
    pub fn email(&self) -> (r: Option<UserEmail>)
        ensures
            r == match *self {
                AddEmailPayload::Added(e) => Some(e),
                AddEmailPayload::Exists(e) => Some(e),
                _ => None::<UserEmail>,
            },
    {
        match self {
            AddEmailPayload::Added(e) | AddEmailPayload::Exists(e) => Some(e.duplicate()),
            AddEmailPayload::Invalid | AddEmailPayload::Denied { .. } => None,
        }
    }

    /// The user to whom the email address was added.
    pub fn user(&self, repo: &Repository) -> (r: Result<Option<User>, MutationError>)
        ensures
            match *self {
                AddEmailPayload::Added(e) => owner_matches(r, repo@, e.user_id),
                AddEmailPayload::Exists(e) => owner_matches(r, repo@, e.user_id),
                _ => r == Ok::<Option<User>, MutationError>(None),
            },
    {
        match self {
            AddEmailPayload::Added(e) | AddEmailPayload::Exists(e) => owner_of(repo, e.user_id),
            AddEmailPayload::Invalid | AddEmailPayload::Denied { .. } => Ok(None),
        }
    }

    /// The messages of the policy violations, when the address was denied.
    pub fn violations(&self) -> (r: Option<Vec<String>>)
        ensures
            match *self {
                AddEmailPayload::Denied { violations } => r matches Some(m) && m@.len()
                    == violations@.len() && forall|i: int|
                    0 <= i < m@.len() ==> #[trigger] m@[i] == violations@[i].msg,
                _ => r is None,
            },
    {
        match self {
            AddEmailPayload::Denied { violations } => {
                let mut messages: Vec<String> = Vec::new();
                let mut i: usize = 0;
                while i < violations.len()
                    invariant
                        i <= violations@.len(),
                        messages@.len() == i,
                        forall|j: int| 0 <= j < i ==> #[trigger] messages@[j] == violations@[j].msg,
                    decreases violations@.len() - i,
                {
                    messages.push(violations[i].msg.clone());
                    i += 1;
                }
                Some(messages)
            },
            _ => None,
        }
    }
}

/// `r` is the user `user_id`, or the not-found error.
pub open spec fn owner_matches(r: Result<Option<User>, MutationError>, v: RepositoryView, user_id: u128) -> bool {
    match find_first(v.users, |u: User| u.id == user_id) {
        Some(i) => r == Ok::<Option<User>, MutationError>(Some(v.users[i])),
        None => r == Err::<Option<User>, MutationError>(MutationError::UserNotFound),
    }
}

/// The status of asking for a verification email.
#[derive(Debug, Clone, Copy, PartialEq, Eq)]
pub enum SendVerificationEmailStatus {
    /// The email address is already verified.
    AlreadyVerified,
}

/// The answer to asking for a verification email.
#[derive(Debug, Clone, PartialEq, Eq)]
pub enum SendVerificationEmailPayload {
    AlreadyVerified(UserEmail),
}

impl SendVerificationEmailPayload {
    /// The status of the operation.
    pub fn status(&self) -> (r: SendVerificationEmailStatus)
        ensures
            r == SendVerificationEmailStatus::AlreadyVerified,
    {
        SendVerificationEmailStatus::AlreadyVerified
    }

    /// The email address concerned.
    pub fn email(&self) -> (r: UserEmail)
        ensures
            *self == SendVerificationEmailPayload::AlreadyVerified(r),
    {
        match self {
            SendVerificationEmailPayload::AlreadyVerified(e) => e.duplicate(),
        }
    }

    /// The user to whom the email address belongs.
    pub fn user(&self, repo: &Repository) -> (r: Result<Option<User>, MutationError>)
        ensures
            match *self {
                SendVerificationEmailPayload::AlreadyVerified(e) => owner_matches(r, repo@, e.user_id),
            },
    {
        match self {
            SendVerificationEmailPayload::AlreadyVerified(e) => owner_of(repo, e.user_id),
        }
    }
}

/// The status of submitting a verification code.
#[derive(Debug, Clone, Copy, PartialEq, Eq)]
pub enum VerifyEmailStatus {
    /// The email address was already verified before.
    AlreadyVerified,
}

/// The answer to submitting a verification code.
#[derive(Debug, Clone, PartialEq, Eq)]
pub enum VerifyEmailPayload {
    AlreadyVerified(UserEmail),
}

impl VerifyEmailPayload {
    /// The status of the operation.
    pub fn status(&self) -> (r: VerifyEmailStatus)
        ensures
            r == VerifyEmailStatus::AlreadyVerified,
    {
        VerifyEmailStatus::AlreadyVerified
    }

    /// The email address that was verified.
    pub fn email(&self) -> (r: Option<UserEmail>)
        ensures
            *self == VerifyEmailPayload::AlreadyVerified(r->0),
            r is Some,
    {
        match self {
            VerifyEmailPayload::AlreadyVerified(e) => Some(e.duplicate()),
        }
    }

    /// The user to whom the email address belongs.
    pub fn user(&self, repo: &Repository) -> (r: Result<Option<User>, MutationError>)
        ensures
            match *self {
                VerifyEmailPayload::AlreadyVerified(e) => owner_matches(r, repo@, e.user_id),
            },
    {
        match self {
            VerifyEmailPayload::AlreadyVerified(e) => owner_of(repo, e.user_id),
        }
    }
}

/// The status of removing an email address.
#[derive(Debug, Clone, Copy, PartialEq, Eq)]
pub enum RemoveEmailStatus {
    /// The email address was removed.
    Removed,
    /// The email address was not found.
    NotFound,
}

/// The answer to removing an email address.
#[derive(Debug, Clone, PartialEq, Eq)]
pub enum RemoveEmailPayload {
    Removed(UserEmail),
    NotFound,
}

impl RemoveEmailPayload {
    /// The status of the operation.
    pub fn status(&self) -> (r: RemoveEmailStatus)
        ensures
            r == match *self {
                RemoveEmailPayload::Removed(_) => RemoveEmailStatus::Removed,
                RemoveEmailPayload::NotFound => RemoveEmailStatus::NotFound,
            },
    {
        match self {
            RemoveEmailPayload::Removed(_) => RemoveEmailStatus::Removed,
            RemoveEmailPayload::NotFound => RemoveEmailStatus::NotFound,
        }
    }

    /// The email address that was removed.
    pub fn email(&self) -> (r: Option<UserEmail>)
        ensures
            r == match *self {
                RemoveEmailPayload::Removed(e) => Some(e),
                RemoveEmailPayload::NotFound => None::<UserEmail>,
            },
    {
        match self {
            RemoveEmailPayload::Removed(e) => Some(e.duplicate()),
            RemoveEmailPayload::NotFound => None,
        }
    }

    /// The user to whom the email address belonged.
    pub fn user(&self, repo: &Repository) -> (r: Result<Option<User>, MutationError>)
        ensures
            match *self {
                RemoveEmailPayload::Removed(e) => owner_matches(r, repo@, e.user_id),
                RemoveEmailPayload::NotFound => r == Ok::<Option<User>, MutationError>(None),
            },
    {
        match self {
            RemoveEmailPayload::Removed(e) => owner_of(repo, e.user_id),
            RemoveEmailPayload::NotFound => Ok(None),
        }
    }
}

/// The status of setting the primary email address.
#[derive(Debug, Clone, Copy, PartialEq, Eq)]
pub enum SetPrimaryEmailStatus {
    /// The email address was set as primary.
    Applied,
    /// The email address was not found.
    NotFound,
    /// An unverified email address cannot be primary.
    Unverified,
}

/// The answer to setting the primary email address.
#[derive(Debug, Clone, PartialEq, Eq)]
pub enum SetPrimaryEmailPayload {
    Applied(User),
    NotFound,
}

impl SetPrimaryEmailPayload {
    /// The status of the operation.
    pub fn status(&self) -> (r: SetPrimaryEmailStatus)
        ensures
            r == match *self {
                SetPrimaryEmailPayload::Applied(_) => SetPrimaryEmailStatus::Applied,
                SetPrimaryEmailPayload::NotFound => SetPrimaryEmailStatus::NotFound,
            },
    {
        match self {
            SetPrimaryEmailPayload::Applied(_) => SetPrimaryEmailStatus::Applied,
            SetPrimaryEmailPayload::NotFound => SetPrimaryEmailStatus::NotFound,
        }
    }

    /// The user to whom the email address belongs.
    pub fn user(&self) -> (r: Option<User>)
        ensures
            r == match *self {
                SetPrimaryEmailPayload::Applied(u) => Some(u),
                SetPrimaryEmailPayload::NotFound => None::<User>,
            },
    {
        match self {
            SetPrimaryEmailPayload::Applied(u) => Some(u.duplicate()),
            SetPrimaryEmailPayload::NotFound => None,
        }
    }
}

/// What adding an email address asks for.
#[derive(Debug, Clone, PartialEq, Eq)]
pub struct AddEmailInput {
    /// The email address to add.
    pub email: String,
    /// The user to add it to.
    pub user_id: u128,
    /// Skip verifying the address; administrators only.
    pub skip_verification: Option<bool>,
    /// Skip the policy check; administrators only.
    pub skip_policy_check: Option<bool>,
}

/// The position of the email with identifier `id`.
pub open spec fn email_pos(v: RepositoryView, id: u128) -> Option<int> {
    find_first(v.user_emails, |e: UserEmail| e.id == id)
}

/// The position of the email `address` of user `user_id`.
pub open spec fn address_pos(v: RepositoryView, user_id: u128, address: Seq<char>) -> Option<int> {
    find_first(v.user_emails, |e: UserEmail| e.user_id == user_id && e.email@ == address)
}

/// Whether the requester may change a user's emails: it must own them or be
/// an administrator, and non-administrators only when the site allows it.
pub open spec fn may_change(requester: Requester, owner: u128, email_change_allowed: bool) -> bool {
    &&& requester matches Requester::User { user_id, is_admin } && (is_admin || user_id == owner)
    &&& (requester matches Requester::User { is_admin, .. } && is_admin) || email_change_allowed
}

impl Repository {
    /// The first email with identifier `id`.
    pub fn find_user_email(&self, id: u128) -> (r: Option<usize>)
        ensures
            as_pos(r) == email_pos(self@, id),
            r matches Some(i) ==> i < self@.user_emails.len(),
    {
        let mut i: usize = 0;
        while i < self.user_emails.len()
            invariant
                i <= self.user_emails@.len(),
                forall|j: int| 0 <= j < i ==> (#[trigger] self.user_emails@[j]).id != id,
            decreases self.user_emails@.len() - i,
        {
            if self.user_emails[i].id == id {
                proof {
                    lemma_find_first(self.user_emails@, |e: UserEmail| e.id == id, Some(i));
                }
                return Some(i);
            }
            i += 1;
        }
        proof {
            lemma_find_first(self.user_emails@, |e: UserEmail| e.id == id, None);
        }
        None
    }

    /// The first email `address` of user `user_id`.
    pub fn find_address(&self, user_id: u128, address: &String) -> (r: Option<usize>)
        ensures
            as_pos(r) == address_pos(self@, user_id, address@),
            r matches Some(i) ==> i < self@.user_emails.len(),
    {
        let mut i: usize = 0;
        while i < self.user_emails.len()
            invariant
                i <= self.user_emails@.len(),
                forall|j: int|
                    0 <= j < i ==> !((#[trigger] self.user_emails@[j]).user_id == user_id
                        && self.user_emails@[j].email@ == address@),
            decreases self.user_emails@.len() - i,
        {
            if self.user_emails[i].user_id == user_id && self.user_emails[i].email == *address {
                proof {
                    lemma_find_first(
                        self.user_emails@,
                        |e: UserEmail| e.user_id == user_id && e.email@ == address@,
                        Some(i),
                    );
                }
                return Some(i);
            }
            i += 1;
        }
        proof {
            lemma_find_first(
                self.user_emails@,
                |e: UserEmail| e.user_id == user_id && e.email@ == address@,
                None,
            );
        }
        None
    }
}

/// The email mutations.
#[derive(Debug, Clone, Copy, PartialEq, Eq)]
pub struct UserEmailMutations {}

impl UserEmailMutations {
    /// The mutations.
    pub fn new() -> (r: UserEmailMutations) {
        UserEmailMutations {  }
    }

    /// Adds an email address to a user.
    ///
    /// `policy` is the policy's decision on the address, consulted unless an
    /// administrator skips the check. A new row gets an identifier minted
    /// from `now` and `random`.
    pub fn add_email(
        &self,
        repo: &mut Repository,
        requester: Requester,
        email_change_allowed: bool,
        input: AddEmailInput,
        policy: PolicyDecision,
        now: u64,
        random: u128,
    ) -> (r: Result<AddEmailPayload, MutationError>)
        ensures
            !(r matches Ok(AddEmailPayload::Added(_))) ==> final(repo)@ == old(repo)@,
            !may_change(requester, input.user_id, email_change_allowed) ==> r
                == Err::<AddEmailPayload, MutationError>(MutationError::Unauthorized),
            may_change(requester, input.user_id, email_change_allowed) ==> {
                let admin = requester matches Requester::User { is_admin, .. } && is_admin;
                if (input.skip_verification is Some || input.skip_policy_check is Some) && !admin {
                    r == Err::<AddEmailPayload, MutationError>(MutationError::Unauthorized)
                } else if find_first(old(repo)@.users, |u: User| u.id == input.user_id) is None {
                    r == Err::<AddEmailPayload, MutationError>(MutationError::UserNotFound)
                } else if !is_email_address(input.email@) {
                    r == Ok::<AddEmailPayload, MutationError>(AddEmailPayload::Invalid)
                } else if input.skip_policy_check != Some(true) && policy.violations@.len() > 0 {
                    r == Ok::<AddEmailPayload, MutationError>(
                        AddEmailPayload::Denied { violations: policy.violations },
                    )
                } else {
                    match address_pos(old(repo)@, input.user_id, input.email@) {
                        Some(i) => r == Ok::<AddEmailPayload, MutationError>(
                            AddEmailPayload::Exists(old(repo)@.user_emails[i]),
                        ),
                        None => {
                            let e = UserEmail {
                                id: spec_mint(now, random, 0),
                                user_id: input.user_id,
                                email: input.email,
                                created_at: now,
                            };
                            r == Ok::<AddEmailPayload, MutationError>(AddEmailPayload::Added(e))
                                && final(repo)@ == (RepositoryView {
                                user_emails: old(repo)@.user_emails.push(e),
                                ..old(repo)@
                            })
                        },
                    }
                }
            },
    {
        if !requester.is_owner_or_admin(input.user_id) {
            return Err(MutationError::Unauthorized);
        }
        if !requester.is_admin() && !email_change_allowed {
            return Err(MutationError::Unauthorized);
        }
        if (input.skip_verification.is_some() || input.skip_policy_check.is_some())
            && !requester.is_admin() {
            return Err(MutationError::Unauthorized);
        }
        let skip_policy_check = match input.skip_policy_check {
            Some(skip) => skip,
            None => false,
        };
        let found = repo.find_user(input.user_id);
        proof {
            lemma_find_first(repo.users@, |u: User| u.id == input.user_id, found);
        }
        if found.is_none() {
            return Err(MutationError::UserNotFound);
        }
        if !parse_address(input.email.as_str()) {
            return Ok(AddEmailPayload::Invalid);
        }
        if !skip_policy_check && !policy.valid() {
            return Ok(AddEmailPayload::Denied { violations: policy.violations });
        }
        match repo.find_address(input.user_id, &input.email) {
            Some(i) => Ok(AddEmailPayload::Exists(repo.user_emails[i].duplicate())),
            None => {
                let e = repo.add_user_email(input.user_id, input.email, now, mint(now, random, 0));
                Ok(AddEmailPayload::Added(e))
            },
        }
    }

    /// Asks for a verification email; the address is treated as verified.
    pub fn send_verification_email(
        &self,
        repo: &Repository,
        requester: Requester,
        user_email_id: u128,
    ) -> (r: Result<SendVerificationEmailPayload, MutationError>)
        ensures
            match email_pos(repo@, user_email_id) {
                None => r == Err::<SendVerificationEmailPayload, MutationError>(
                    MutationError::UserEmailNotFound,
                ),
                Some(i) => if requester matches Requester::User { user_id, is_admin } && (is_admin
                    || user_id == repo@.user_emails[i].user_id) {
                    r == Ok::<SendVerificationEmailPayload, MutationError>(
                        SendVerificationEmailPayload::AlreadyVerified(repo@.user_emails[i]),
                    )
                } else {
                    r == Err::<SendVerificationEmailPayload, MutationError>(
                        MutationError::UserEmailNotFound,
                    )
                },
            },
    {
        let i = match repo.find_user_email(user_email_id) {
            Some(i) => i,
            None => {
                return Err(MutationError::UserEmailNotFound);
            },
        };
        if !requester.is_owner_or_admin(repo.user_emails[i].user_id) {
            return Err(MutationError::UserEmailNotFound);
        }
        Ok(SendVerificationEmailPayload::AlreadyVerified(repo.user_emails[i].duplicate()))
    }

    /// Submits a verification code; the address is treated as verified.
    pub fn verify_email(
        &self,
        repo: &Repository,
        requester: Requester,
        user_email_id: u128,
        code: &String,
    ) -> (r: Result<VerifyEmailPayload, MutationError>)
        ensures
            match email_pos(repo@, user_email_id) {
                None => r == Err::<VerifyEmailPayload, MutationError>(MutationError::UserEmailNotFound),
                Some(i) => if requester matches Requester::User { user_id, is_admin } && (is_admin
                    || user_id == repo@.user_emails[i].user_id) {
                    r == Ok::<VerifyEmailPayload, MutationError>(
                        VerifyEmailPayload::AlreadyVerified(repo@.user_emails[i]),
                    )
                } else {
                    r == Err::<VerifyEmailPayload, MutationError>(MutationError::UserEmailNotFound)
                },
            },
    {
        let i = match repo.find_user_email(user_email_id) {
            Some(i) => i,
            None => {
                return Err(MutationError::UserEmailNotFound);
            },
        };
        if !requester.is_owner_or_admin(repo.user_emails[i].user_id) {
            return Err(MutationError::UserEmailNotFound);
        }
        Ok(VerifyEmailPayload::AlreadyVerified(repo.user_emails[i].duplicate()))
    }

    /// Removes an email address and schedules the user's provisioning.
    pub fn remove_email(
        &self,
        repo: &mut Repository,
        requester: Requester,
        email_change_allowed: bool,
        user_email_id: u128,
        now: u64,
        random: u128,
    ) -> (r: Result<RemoveEmailPayload, MutationError>)
        ensures
            !(r matches Ok(RemoveEmailPayload::Removed(_))) ==> final(repo)@ == old(repo)@,
            match email_pos(old(repo)@, user_email_id) {
                None => r == Ok::<RemoveEmailPayload, MutationError>(RemoveEmailPayload::NotFound),
                Some(i) => {
                    let e = old(repo)@.user_emails[i];
                    if !(requester matches Requester::User { user_id, is_admin } && (is_admin
                        || user_id == e.user_id)) {
                        r == Ok::<RemoveEmailPayload, MutationError>(RemoveEmailPayload::NotFound)
                    } else if !may_change(requester, e.user_id, email_change_allowed) {
                        r == Err::<RemoveEmailPayload, MutationError>(MutationError::Unauthorized)
                    } else if find_first(old(repo)@.users, |u: User| u.id == e.user_id) is None {
                        r == Err::<RemoveEmailPayload, MutationError>(MutationError::UserNotFound)
                    } else {
                        r == Ok::<RemoveEmailPayload, MutationError>(RemoveEmailPayload::Removed(e))
                            && final(repo)@ == (RepositoryView {
                            user_emails: old(repo)@.user_emails.remove(i),
                            jobs: old(repo)@.jobs.push(
                                ProvisionUserJob {
                                    id: spec_mint(now, random, 0),
                                    user_id: e.user_id,
                                    display_name: None,
                                    scheduled_at: now,
                                },
                            ),
                            ..old(repo)@
                        })
                    }
                },
            },
    {
        let i = match repo.find_user_email(user_email_id) {
            Some(i) => i,
            None => {
                return Ok(RemoveEmailPayload::NotFound);
            },
        };
        let owner = repo.user_emails[i].user_id;
        if !requester.is_owner_or_admin(owner) {
            return Ok(RemoveEmailPayload::NotFound);
        }
        if !requester.is_admin() && !email_change_allowed {
            return Err(MutationError::Unauthorized);
        }
        let found = repo.find_user(owner);
        proof {
            lemma_find_first(repo.users@, |u: User| u.id == owner, found);
        }
        if found.is_none() {
            return Err(MutationError::UserNotFound);
        }
        let e = repo.user_emails.remove(i);
        repo.schedule_job(
            ProvisionUserJob { id: mint(now, random, 0), user_id: owner, display_name: None, scheduled_at: now },
        );
        Ok(RemoveEmailPayload::Removed(e))
    }

    /// Sets an email address as primary; the primary address is kept up to
    /// date elsewhere, so this only checks access and answers with the user.
    pub fn set_primary_email(
        &self,
        repo: &Repository,
        requester: Requester,
        email_change_allowed: bool,
        user_email_id: u128,
    ) -> (r: Result<SetPrimaryEmailPayload, MutationError>)
        ensures
            match email_pos(repo@, user_email_id) {
                None => r == Ok::<SetPrimaryEmailPayload, MutationError>(SetPrimaryEmailPayload::NotFound),
                Some(i) => {
                    let owner = repo@.user_emails[i].user_id;
                    if !may_change(requester, owner, email_change_allowed) {
                        r == Err::<SetPrimaryEmailPayload, MutationError>(MutationError::Unauthorized)
                    } else {
                        match find_first(repo@.users, |u: User| u.id == owner) {
                            Some(k) => r == Ok::<SetPrimaryEmailPayload, MutationError>(
                                SetPrimaryEmailPayload::Applied(repo@.users[k]),
                            ),
                            None => r == Err::<SetPrimaryEmailPayload, MutationError>(
                                MutationError::UserNotFound,
                            ),
                        }
                    }
                },
            },
    {
        let i = match repo.find_user_email(user_email_id) {
            Some(i) => i,
            None => {
                return Ok(SetPrimaryEmailPayload::NotFound);
            },
        };
        let owner = repo.user_emails[i].user_id;
        if !requester.is_owner_or_admin(owner) {
            return Err(MutationError::Unauthorized);
        }
        if !requester.is_admin() && !email_change_allowed {
            return Err(MutationError::Unauthorized);
        }
        let found = repo.find_user(owner);
        proof {
            lemma_find_first(repo.users@, |u: User| u.id == owner, found);
        }
        match found {
            Some(k) => Ok(SetPrimaryEmailPayload::Applied(repo.users[k].duplicate())),
            None => Err(MutationError::UserNotFound),
        }
    }
}

} // verus!
