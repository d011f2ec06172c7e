use mas_federation::model::{User, UserEmail};
use mas_federation::policy::{PolicyDecision, Violation};
use mas_federation::repository::Repository;
use mas_federation::user_email::{
    AddEmailInput, AddEmailPayload, AddEmailStatus, MutationError, RemoveEmailPayload, RemoveEmailStatus,
    Requester, SetPrimaryEmailPayload, SetPrimaryEmailStatus, UserEmailMutations,
};

const NOW: u64 = 1_700_000_000_000;

fn repo() -> Repository {
    Repository {
        users: vec![User {
            id: 1,
            username: "alice".to_string(),
            sub: "s".to_string(),
            created_at: NOW,
            locked_at: None,
            can_request_admin: false,
        }],
        user_emails: vec![UserEmail { id: 10, user_id: 1, email: "alice@example.com".to_string(), created_at: NOW }],
        browser_sessions: vec![],
        session_authentications: vec![],
        providers: vec![],
        links: vec![],
        upstream_sessions: vec![],
        terms_acceptances: vec![],
        jobs: vec![],
    }
}

fn input(email: &str) -> AddEmailInput {
    AddEmailInput { email: email.to_string(), user_id: 1, skip_verification: None, skip_policy_check: None }
}

fn owner() -> Requester {
    Requester::User { user_id: 1, is_admin: false }
}

fn allow() -> PolicyDecision {
    PolicyDecision { violations: vec![] }
}

#[test]
fn add_email_statuses() {
    let m = UserEmailMutations::new();
    let mut r = repo();
    let added = m.add_email(&mut r, owner(), true, input("new@example.com"), allow(), NOW, 5).unwrap();
    assert_eq!(added.status(), AddEmailStatus::Added);
    assert_eq!(added.email().unwrap().email, "new@example.com");
    assert_eq!(added.user(&r).unwrap().unwrap().username, "alice");
    assert_eq!(r.user_emails.len(), 2);

    let exists = m.add_email(&mut r, owner(), true, input("alice@example.com"), allow(), NOW, 6).unwrap();
    assert_eq!(exists.status(), AddEmailStatus::Exists);
    assert_eq!(exists.email().unwrap().id, 10);

    let invalid = m.add_email(&mut r, owner(), true, input("not an address"), allow(), NOW, 7).unwrap();
    assert_eq!(invalid, AddEmailPayload::Invalid);
    assert_eq!(invalid.status(), AddEmailStatus::Invalid);
    assert_eq!(invalid.user(&r), Ok(None));

    let deny = PolicyDecision { violations: vec![Violation { msg: "banned domain".to_string(), code: None, field: None }] };
    let denied = m.add_email(&mut r, owner(), true, input("x@banned.example"), deny.clone(), NOW, 8).unwrap();
    assert_eq!(denied.status(), AddEmailStatus::Denied);
    assert_eq!(denied.violations(), Some(vec!["banned domain".to_string()]));
    assert_eq!(denied.email(), None);

    let admin = Requester::User { user_id: 2, is_admin: true };
    let mut skip = input("x@banned.example");
    skip.skip_policy_check = Some(true);
    let skipped = m.add_email(&mut r, admin, false, skip, deny, NOW, 9).unwrap();
    assert_eq!(skipped.status(), AddEmailStatus::Added);
    assert_eq!(r.user_emails.len(), 3);
}

#[test]
fn add_email_refusals() {
    let m = UserEmailMutations::new();
    let mut r = repo();
    let stranger = Requester::User { user_id: 2, is_admin: false };
    assert_eq!(m.add_email(&mut r, stranger, true, input("a@b.example"), allow(), NOW, 1), Err(MutationError::Unauthorized));
    assert_eq!(m.add_email(&mut r, Requester::Anonymous, true, input("a@b.example"), allow(), NOW, 1), Err(MutationError::Unauthorized));
    assert_eq!(m.add_email(&mut r, owner(), false, input("a@b.example"), allow(), NOW, 1), Err(MutationError::Unauthorized));
    let mut skip = input("a@b.example");
    skip.skip_verification = Some(true);
    assert_eq!(m.add_email(&mut r, owner(), true, skip, allow(), NOW, 1), Err(MutationError::Unauthorized));
    let mut other = input("a@b.example");
    other.user_id = 3;
    let admin = Requester::User { user_id: 2, is_admin: true };
    assert_eq!(m.add_email(&mut r, admin, true, other, allow(), NOW, 1), Err(MutationError::UserNotFound));
    assert_eq!(r, repo());
}

#[test]
fn remove_and_other_mutations() {
    let m = UserEmailMutations::new();
    let mut r = repo();
    assert_eq!(m.remove_email(&mut r, owner(), false, 10, NOW, 1), Err(MutationError::Unauthorized));
    let stranger = Requester::User { user_id: 2, is_admin: false };
    assert_eq!(m.remove_email(&mut r, stranger, true, 10, NOW, 1), Ok(RemoveEmailPayload::NotFound));
    let nothing = m.remove_email(&mut r, owner(), true, 99, NOW, 1).unwrap();
    assert_eq!(nothing.status(), RemoveEmailStatus::NotFound);
    assert_eq!(nothing.email(), None);
    let removed = m.remove_email(&mut r, owner(), true, 10, NOW, 1).unwrap();
    assert_eq!(removed.status(), RemoveEmailStatus::Removed);
    assert_eq!(removed.email().unwrap().email, "alice@example.com");
    assert_eq!(removed.user(&r).unwrap().unwrap().id, 1);
    assert!(r.user_emails.is_empty());
    assert_eq!(r.jobs.len(), 1);
    assert_eq!(r.jobs[0].user_id, 1);

    let r = repo();
    let set = m.set_primary_email(&r, owner(), true, 10).unwrap();
    assert_eq!(set.status(), SetPrimaryEmailStatus::Applied);
    assert_eq!(set.user().unwrap().username, "alice");
    assert_eq!(m.set_primary_email(&r, owner(), true, 99), Ok(SetPrimaryEmailPayload::NotFound));
    assert_eq!(m.set_primary_email(&r, stranger, true, 10), Err(MutationError::Unauthorized));

    let sent = m.send_verification_email(&r, owner(), 10).unwrap();
    assert_eq!(sent.email().id, 10);
    assert_eq!(m.send_verification_email(&r, stranger, 10), Err(MutationError::UserEmailNotFound));
    let verified = m.verify_email(&r, owner(), 10, &"123456".to_string()).unwrap();
    assert_eq!(verified.email().unwrap().id, 10);
    assert_eq!(verified.user(&r).unwrap().unwrap().id, 1);
    assert_eq!(m.verify_email(&r, owner(), 11, &"1".to_string()), Err(MutationError::UserEmailNotFound));
}
