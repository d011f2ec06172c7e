use mas_federation::claims::{Claims, ClaimsContext};
use mas_federation::cookie::{PostAuthAction, UpstreamSessionsCookie};
use mas_federation::error::RouteError;
use mas_federation::link::{
    finish_localpart_check, finish_registration, link_get, link_post, localpart_availability,
    username_availability, validate_registration, ErrorCode, FieldError, FormData, GetOutcome,
    LocalpartCheck, PostOutcome, RegisterField, RegistrationDraft,
};
use mas_federation::mapping::{
    render_attribute_template, ClaimsImports, ImportAction, ImportPreference,
};
use mas_federation::model::{
    BrowserSession, UpstreamOAuthLink, UpstreamOAuthProvider, UpstreamOAuthSession, User,
};
use mas_federation::policy::{PolicyDecision, Violation};
use mas_federation::repository::Repository;

const NOW: u64 = 1_700_000_000_000;
const PROVIDER: u128 = 0x10;
const LINK: u128 = 0x20;
const KEY: &[u8] = b"a server-held signing key";

fn session_id() -> u128 {
    ((NOW as u128) << 80) | 0x30
}

fn pref(action: ImportAction) -> ImportPreference {
    ImportPreference { action, template: None }
}

fn claims(pairs: &[(&str, &str)]) -> Claims {
    let mut c = Claims::new();
    for (k, v) in pairs {
        c.push(k.to_string(), v.to_string());
    }
    c
}

fn empty_repo() -> Repository {
    Repository {
        users: vec![],
        user_emails: vec![],
        browser_sessions: vec![],
        session_authentications: vec![],
        providers: vec![],
        links: vec![],
        upstream_sessions: vec![],
        terms_acceptances: vec![],
        jobs: vec![],
    }
}

fn setup(imports: ClaimsImports, id_token: Claims, link_user: Option<u128>) -> (Repository, UpstreamSessionsCookie) {
    let mut repo = empty_repo();
    repo.providers.push(UpstreamOAuthProvider {
        id: PROVIDER,
        issuer: Some("https://example.com/".to_string()),
        human_name: Some("Example Ltd.".to_string()),
        client_id: "client".to_string(),
        claims_imports: imports,
        created_at: NOW,
    });
    repo.links.push(UpstreamOAuthLink {
        id: LINK,
        provider_id: PROVIDER,
        subject: "subject".to_string(),
        user_id: link_user,
        created_at: NOW,
    });
    repo.upstream_sessions.push(UpstreamOAuthSession {
        id: session_id(),
        provider_id: PROVIDER,
        state: "state".to_string(),
        nonce: "nonce".to_string(),
        link_id: Some(LINK),
        id_token_claims: Some(id_token),
        extra_callback_parameters: None,
        userinfo: None,
        created_at: NOW,
        consumed_at: None,
    });
    let cookie = UpstreamSessionsCookie::default()
        .add(session_id(), PROVIDER, "state".to_string(), None)
        .add_link_to_session(session_id(), LINK)
        .unwrap();
    // Round-trip through the signed cookie, as a browser would.
    let raw = cookie.save(&KEY.to_vec(), NOW);
    assert!(raw.is_some());
    let cookie = UpstreamSessionsCookie::load(&raw, &KEY.to_vec(), NOW);
    (repo, cookie)
}

fn john_claims() -> Claims {
    claims(&[
        ("preferred_username", "john"),
        ("email", "john@example.com"),
        ("email_verified", "true"),
    ])
}

fn force_imports() -> ClaimsImports {
    ClaimsImports {
        localpart: pref(ImportAction::Force),
        displayname: pref(ImportAction::Ignore),
        email: pref(ImportAction::Force),
    }
}

fn user(id: u128, username: &str) -> User {
    User {
        id,
        username: username.to_string(),
        sub: "sub".to_string(),
        created_at: NOW,
        locked_at: None,
        can_request_admin: false,
    }
}

fn browser_session(id: u128, user: User) -> BrowserSession {
    BrowserSession {
        id,
        user,
        created_at: NOW,
        finished_at: None,
        user_agent: None,
        last_active_at: None,
        last_active_ip: None,
    }
}

fn policy_step(check: LocalpartCheck) -> LocalpartCheck {
    match localpart_availability(check, Ok(true)).unwrap() {
        GetOutcome::CheckPolicy(check) => check,
        other => panic!("unexpected outcome {other:?}"),
    }
}

fn homeserver_step(draft: RegistrationDraft) -> RegistrationDraft {
    if draft.homeserver_check {
        username_availability(draft, Ok(true)).unwrap()
    } else {
        draft
    }
}

fn no_violations() -> PolicyDecision {
    PolicyDecision { violations: vec![] }
}

#[test]
fn test_register() {
    let (mut repo, cookie) = setup(force_imports(), john_claims(), None);

    let outcome = link_get(&mut repo, &cookie, LINK, None, NOW, 7, None).unwrap();
    let check = match outcome {
        GetOutcome::CheckLocalpart(check) => check,
        other => panic!("unexpected outcome {other:?}"),
    };
    assert_eq!(check.localpart, "john");
    assert!(check.forced);
    let page = finish_localpart_check(policy_step(check), no_violations());
    let ctx = match page {
        GetOutcome::Register(ctx) => ctx,
        other => panic!("unexpected outcome {other:?}"),
    };
    assert_eq!(ctx.imported_localpart.as_deref(), Some("john"));
    assert!(ctx.force_localpart);
    assert_eq!(ctx.imported_email.as_deref(), Some("john@example.com"));

    let form = FormData::Register {
        username: None,
        import_email: Some("on".to_string()),
        import_display_name: None,
        accept_terms: Some("on".to_string()),
    };
    let draft = match link_post(&mut repo, &cookie, LINK, None, form, NOW, 8).unwrap() {
        PostOutcome::Validate(draft) => draft,
        other => panic!("unexpected outcome {other:?}"),
    };
    assert!(draft.homeserver_check);
    let done = finish_registration(
        &mut repo,
        &cookie,
        None,
        homeserver_step(draft),
        no_violations(),
        Some("https://example.com/tos".to_string()),
        NOW,
        9,
        None,
    )
    .unwrap();
    let (browser_session_id, kept) = match done {
        PostOutcome::Redirect { browser_session_id, cookie, .. } => (browser_session_id, cookie),
        other => panic!("unexpected outcome {other:?}"),
    };

    let users: Vec<&User> = repo.users.iter().filter(|u| u.username == "john").collect();
    assert_eq!(users.len(), 1, "user exists");
    let user = users[0];
    assert_eq!(user.sub.len(), 26);
    assert_ne!(user.sub, user.id.to_string());
    let link = repo.links.iter().find(|l| l.subject == "subject").expect("link exists");
    assert_eq!(link.user_id, Some(user.id));
    let email = repo.user_emails.iter().find(|e| e.user_id == user.id).expect("email exists");
    assert_eq!(email.email, "john@example.com");
    assert_eq!(repo.user_emails.len(), 1);
    let sessions: Vec<&BrowserSession> =
        repo.browser_sessions.iter().filter(|s| s.user.id == user.id && s.active()).collect();
    assert_eq!(sessions.len(), 1);
    assert_eq!(sessions[0].id, browser_session_id);
    assert!(repo.upstream_sessions[0].is_consumed());
    assert!(kept.lookup_link(LINK).is_err());
    assert_eq!(repo.terms_acceptances.len(), 1);
    assert_eq!(repo.jobs.len(), 1);
    assert_eq!(repo.session_authentications.len(), 1);
}

#[test]
fn bound_link_logs_in_without_registration() {
    let (mut repo, cookie) = setup(force_imports(), john_claims(), Some(0x99));
    repo.users.push(user(0x99, "alice"));
    let outcome = link_get(&mut repo, &cookie, LINK, None, NOW, 7, None).unwrap();
    match outcome {
        GetOutcome::Redirect { cookie: kept, post_auth_action, .. } => {
            assert!(kept.is_empty());
            assert_eq!(post_auth_action, None);
        }
        other => panic!("unexpected outcome {other:?}"),
    }
    assert_eq!(repo.browser_sessions.len(), 1);
    assert_eq!(repo.browser_sessions[0].user.id, 0x99);
    assert!(repo.upstream_sessions[0].is_consumed());
    assert!(repo.users.iter().all(|u| u.username != "john"));
}

#[test]
fn second_visit_after_registration_takes_bound_branch() {
    let (mut repo, cookie) = setup(force_imports(), john_claims(), None);
    let form = FormData::Register {
        username: None,
        import_email: None,
        import_display_name: None,
        accept_terms: None,
    };
    let draft = match link_post(&mut repo, &cookie, LINK, None, form, NOW, 8).unwrap() {
        PostOutcome::Validate(draft) => draft,
        other => panic!("unexpected outcome {other:?}"),
    };
    finish_registration(&mut repo, &cookie, None, homeserver_step(draft), no_violations(), None, NOW, 9, None)
        .unwrap();
    let user_id = repo.users[0].id;
    // A new login attempt on the same subject.
    repo.upstream_sessions[0].consumed_at = None;
    let outcome = link_get(&mut repo, &cookie, LINK, None, NOW, 10, None).unwrap();
    assert!(matches!(outcome, GetOutcome::Redirect { .. }));
    assert_eq!(repo.browser_sessions.last().unwrap().user.id, user_id);
    assert_eq!(repo.users.len(), 1);
}

#[test]
fn mismatch_writes_nothing() {
    let (mut repo, cookie) = setup(force_imports(), john_claims(), Some(0xB));
    repo.users.push(user(0xA, "alice"));
    repo.users.push(user(0xB, "bob"));
    repo.browser_sessions.push(browser_session(0x77, user(0xA, "alice")));
    let before = repo.clone();
    let outcome = link_get(&mut repo, &cookie, LINK, Some(0x77), NOW, 7, None).unwrap();
    match outcome {
        GetOutcome::ExistingLinkMismatch { user, session } => {
            assert_eq!(user.username, "bob");
            assert_eq!(session.id, 0x77);
        }
        other => panic!("unexpected outcome {other:?}"),
    }
    assert_eq!(repo, before);
}

#[test]
fn same_user_reauthenticates() {
    let (mut repo, cookie) = setup(force_imports(), john_claims(), Some(0xA));
    repo.users.push(user(0xA, "alice"));
    repo.browser_sessions.push(browser_session(0x77, user(0xA, "alice")));
    let outcome = link_get(&mut repo, &cookie, LINK, Some(0x77), NOW, 7, None).unwrap();
    match outcome {
        GetOutcome::Redirect { post_auth_action, browser_session_id, cookie: kept } => {
            assert_eq!(post_auth_action, None);
            assert_eq!(browser_session_id, 0x77);
            assert!(kept.lookup_link(LINK).is_err());
        }
        other => panic!("unexpected outcome {other:?}"),
    }
    assert_eq!(repo.session_authentications.len(), 1);
    assert_eq!(repo.session_authentications[0].browser_session_id, 0x77);
    // Consuming the same upstream session again fails, and hands back the
    // cookie without the stale entry.
    let before = repo.clone();
    match link_get(&mut repo, &cookie, LINK, Some(0x77), NOW, 8, None) {
        Err(RouteError::SessionConsumed { cookie: kept }) => {
            assert!(kept.lookup_link(LINK).is_err());
            assert!(kept.is_empty());
        }
        other => panic!("unexpected outcome {other:?}"),
    }
    assert_eq!(repo, before);
}

#[test]
fn logged_in_user_is_offered_and_can_link() {
    let (mut repo, cookie) = setup(force_imports(), john_claims(), None);
    repo.users.push(user(0xA, "alice"));
    repo.browser_sessions.push(browser_session(0x77, user(0xA, "alice")));
    let outcome = link_get(&mut repo, &cookie, LINK, Some(0x77), NOW, 7, None).unwrap();
    assert!(matches!(outcome, GetOutcome::SuggestLink { .. }));
    let done = link_post(&mut repo, &cookie, LINK, Some(0x77), FormData::Link, NOW, 8).unwrap();
    assert!(matches!(done, PostOutcome::Redirect { browser_session_id: 0x77, .. }));
    assert_eq!(repo.links[0].user_id, Some(0xA));
    assert!(repo.upstream_sessions[0].is_consumed());
}

#[test]
fn wrong_form_action_is_refused() {
    let (mut repo, cookie) = setup(force_imports(), john_claims(), None);
    let before = repo.clone();
    assert_eq!(
        link_post(&mut repo, &cookie, LINK, None, FormData::Link, NOW, 8),
        Err(RouteError::InvalidFormAction)
    );
    assert_eq!(repo, before);
}

#[test]
fn guard_errors() {
    let (mut repo, cookie) = setup(force_imports(), john_claims(), None);
    assert_eq!(
        link_get(&mut repo, &UpstreamSessionsCookie::new(), LINK, None, NOW, 7, None),
        Err(RouteError::MissingCookie)
    );
    let mut no_link = repo.clone();
    no_link.links.clear();
    assert_eq!(link_get(&mut no_link, &cookie, LINK, None, NOW, 7, None), Err(RouteError::LinkNotFound));
    let mut other_link = repo.clone();
    other_link.upstream_sessions[0].link_id = Some(0x21);
    assert_eq!(
        link_get(&mut other_link, &cookie, LINK, None, NOW, 7, None),
        Err(RouteError::SessionNotFound)
    );
    let mut no_session = repo.clone();
    no_session.upstream_sessions.clear();
    assert_eq!(
        link_get(&mut no_session, &cookie, LINK, None, NOW, 7, None),
        Err(RouteError::SessionNotFound)
    );
    let mut no_provider = repo.clone();
    no_provider.providers.clear();
    assert_eq!(
        link_get(&mut no_provider, &cookie, LINK, None, NOW, 7, None),
        Err(RouteError::ProviderNotFound)
    );
    let mut locked = repo.clone();
    locked.links[0].user_id = Some(0xA);
    let mut alice = user(0xA, "alice");
    alice.locked_at = Some(NOW);
    locked.users.push(alice);
    assert_eq!(link_get(&mut locked, &cookie, LINK, None, NOW, 7, None), Err(RouteError::UserNotFound));
    assert_eq!(RouteError::LinkNotFound.status_code(), 404);
    assert_eq!(RouteError::MissingCookie.status_code(), 500);
}

#[test]
fn forced_empty_attribute_aborts() {
    let (mut repo, cookie) = setup(force_imports(), claims(&[("email", "john@example.com")]), None);
    let before = repo.clone();
    assert_eq!(
        link_get(&mut repo, &cookie, LINK, None, NOW, 7, None),
        Err(RouteError::RequiredAttributeEmpty { template: "{{ user.preferred_username }}".to_string() })
    );
    assert_eq!(repo, before);
}

#[test]
fn forced_failing_template_aborts() {
    let mut imports = force_imports();
    imports.localpart.template = Some("{{ user.name | nosuchfilter }}".to_string());
    let (mut repo, cookie) = setup(imports, john_claims(), None);
    match link_get(&mut repo, &cookie, LINK, None, NOW, 7, None) {
        Err(RouteError::RequiredAttributeRender { template, .. }) => {
            assert_eq!(template, "{{ user.name | nosuchfilter }}")
        }
        other => panic!("unexpected outcome {other:?}"),
    }
}

#[test]
fn suggested_attribute_that_fails_is_dropped() {
    let imports = ClaimsImports {
        localpart: pref(ImportAction::Suggest),
        displayname: pref(ImportAction::Suggest),
        email: pref(ImportAction::Suggest),
    };
    let (mut repo, cookie) = setup(imports, claims(&[("email", "john@example.com")]), None);
    match link_get(&mut repo, &cookie, LINK, None, NOW, 7, None).unwrap() {
        GetOutcome::Register(ctx) => {
            assert_eq!(ctx.imported_localpart, None);
            assert_eq!(ctx.imported_display_name, None);
            assert_eq!(ctx.imported_email.as_deref(), Some("john@example.com"));
            assert!(!ctx.force_email);
        }
        other => panic!("unexpected outcome {other:?}"),
    }
}

#[test]
fn taken_localpart_shows_error_page() {
    let (mut repo, cookie) = setup(force_imports(), john_claims(), None);
    repo.users.push(user(0xA, "john"));
    let before = repo.clone();
    match link_get(&mut repo, &cookie, LINK, None, NOW, 7, None).unwrap() {
        GetOutcome::Error(page) => {
            assert_eq!(page.code, ErrorCode::UserExists);
            assert_eq!(page.localpart, "john");
        }
        other => panic!("unexpected outcome {other:?}"),
    }
    assert_eq!(repo, before);
    repo.users.clear();
    let check = match link_get(&mut repo, &cookie, LINK, None, NOW, 7, None).unwrap() {
        GetOutcome::CheckLocalpart(check) => check,
        other => panic!("unexpected outcome {other:?}"),
    };
    match localpart_availability(check.clone(), Ok(false)).unwrap() {
        GetOutcome::Error(page) => {
            assert_eq!(page.code, ErrorCode::UserExists);
            assert_eq!(page.localpart, "john");
        }
        other => panic!("unexpected outcome {other:?}"),
    }
    assert_eq!(
        localpart_availability(check.clone(), Err("down".to_string())),
        Err(RouteError::HomeserverConnection { message: "down".to_string() })
    );
    let denied = PolicyDecision {
        violations: vec![Violation { msg: "reserved".to_string(), code: None, field: Some("username".to_string()) }],
    };
    match finish_localpart_check(policy_step(check.clone()), denied.clone()) {
        GetOutcome::Error(page) => {
            assert_eq!(page.code, ErrorCode::PolicyDenied);
            assert_eq!(page.violations.len(), 1);
        }
        other => panic!("unexpected outcome {other:?}"),
    }
    let mut suggested = policy_step(check);
    suggested.forced = false;
    match finish_localpart_check(suggested, denied) {
        GetOutcome::Register(ctx) => assert_eq!(ctx.imported_localpart, None),
        other => panic!("unexpected outcome {other:?}"),
    }
}

#[test]
fn homeserver_refusal_is_recorded_on_the_draft() {
    let (mut repo, cookie) = setup(force_imports(), john_claims(), None);
    let form = FormData::Register {
        username: None,
        import_email: None,
        import_display_name: None,
        accept_terms: None,
    };
    let draft = match link_post(&mut repo, &cookie, LINK, None, form, NOW, 8).unwrap() {
        PostOutcome::Validate(draft) => draft,
        other => panic!("unexpected outcome {other:?}"),
    };
    assert_eq!(
        username_availability(draft.clone(), Err("down".to_string())),
        Err(RouteError::HomeserverConnection { message: "down".to_string() })
    );
    let refused = username_availability(draft, Ok(false)).unwrap();
    assert!(refused.homeserver_refused);
    let before = repo.clone();
    match finish_registration(&mut repo, &cookie, None, refused, no_violations(), None, NOW, 9, None).unwrap() {
        PostOutcome::Form(ctx) => {
            assert_eq!(ctx.form_state.field_errors, vec![(RegisterField::Username, FieldError::Exists)])
        }
        other => panic!("unexpected outcome {other:?}"),
    }
    assert_eq!(repo, before);
}

#[test]
fn empty_username_is_not_sent_to_the_homeserver() {
    let imports = ClaimsImports {
        localpart: pref(ImportAction::Suggest),
        displayname: pref(ImportAction::Ignore),
        email: pref(ImportAction::Ignore),
    };
    let (mut repo, cookie) = setup(imports, john_claims(), None);
    repo.users.push(user(0xA, "taken"));
    let form = |username: Option<&str>| FormData::Register {
        username: username.map(str::to_string),
        import_email: None,
        import_display_name: None,
        accept_terms: None,
    };
    for (name, expected) in [(None, false), (Some("taken"), false), (Some("free"), true)] {
        match link_post(&mut repo, &cookie, LINK, None, form(name), NOW, 8).unwrap() {
            PostOutcome::Validate(draft) => assert_eq!(draft.homeserver_check, expected),
            other => panic!("unexpected outcome {other:?}"),
        }
    }
}

#[test]
fn homeserver_denied_username_is_reported_as_existing() {
    let fs = validate_registration(&"john".to_string(), false, &Ok(false), false, &no_violations()).unwrap();
    assert_eq!(fs.field_errors, vec![(RegisterField::Username, FieldError::Exists)]);
    assert!(!fs.is_valid());
    // A policy violation on the username replaces it.
    let policy = PolicyDecision {
        violations: vec![Violation {
            msg: "too short".to_string(),
            code: Some("short".to_string()),
            field: Some("username".to_string()),
        }],
    };
    let fs = validate_registration(&"john".to_string(), false, &Ok(false), false, &policy).unwrap();
    assert_eq!(
        fs.field_errors,
        vec![(
            RegisterField::Username,
            FieldError::Policy { code: Some("short".to_string()), message: "too short".to_string() }
        )]
    );
}

#[test]
fn validation_errors() {
    let fs = validate_registration(&String::new(), false, &Err("down".to_string()), true, &no_violations()).unwrap();
    assert_eq!(
        fs.field_errors,
        vec![(RegisterField::Username, FieldError::Required), (RegisterField::AcceptTerms, FieldError::Required)]
    );
    let fs = validate_registration(&"john".to_string(), true, &Ok(true), false, &no_violations()).unwrap();
    assert_eq!(fs.field_errors, vec![(RegisterField::Username, FieldError::Exists)]);
    assert_eq!(
        validate_registration(&"john".to_string(), false, &Err("down".to_string()), false, &no_violations()),
        Err(RouteError::HomeserverConnection { message: "down".to_string() })
    );
    let policy = PolicyDecision {
        violations: vec![Violation { msg: "no".to_string(), code: None, field: None }],
    };
    let fs = validate_registration(&"john".to_string(), false, &Ok(true), false, &policy).unwrap();
    assert!(fs.field_errors.is_empty());
    assert_eq!(fs.form_errors.len(), 1);
}

#[test]
fn invalid_registration_form_is_shown_again() {
    let (mut repo, cookie) = setup(force_imports(), john_claims(), None);
    let form = FormData::Register {
        username: None,
        import_email: None,
        import_display_name: None,
        accept_terms: None,
    };
    let draft = match link_post(&mut repo, &cookie, LINK, None, form, NOW, 8).unwrap() {
        PostOutcome::Validate(draft) => draft,
        other => panic!("unexpected outcome {other:?}"),
    };
    let before = repo.clone();
    let out = finish_registration(
        &mut repo,
        &cookie,
        None,
        homeserver_step(draft),
        no_violations(),
        Some("https://example.com/tos".to_string()),
        NOW,
        9,
        None,
    )
    .unwrap();
    match out {
        PostOutcome::Form(ctx) => {
            assert_eq!(ctx.form_state.field_errors, vec![(RegisterField::AcceptTerms, FieldError::Required)]);
        }
        other => panic!("unexpected outcome {other:?}"),
    }
    assert_eq!(repo, before);
}

#[test]
fn post_auth_action_is_kept() {
    let (mut repo, _) = setup(force_imports(), john_claims(), Some(0xA));
    repo.users.push(user(0xA, "alice"));
    let action = PostAuthAction::ContinueAuthorizationGrant { id: 0x55 };
    let cookie = UpstreamSessionsCookie::new()
        .add(session_id(), PROVIDER, "state".to_string(), Some(action))
        .add_link_to_session(session_id(), LINK)
        .unwrap();
    match link_get(&mut repo, &cookie, LINK, None, NOW, 7, None).unwrap() {
        GetOutcome::Redirect { post_auth_action, .. } => assert_eq!(post_auth_action, Some(action)),
        other => panic!("unexpected outcome {other:?}"),
    }
}

#[test]
fn renders_attribute_templates() {
    let ctx = ClaimsContext {
        user: Some(john_claims()),
        id_token_claims: Some(john_claims()),
        extra_callback_parameters: None,
        userinfo_claims: None,
    };
    assert_eq!(
        render_attribute_template("{{ user.preferred_username }}", &ctx, true),
        Ok(Some("john".to_string()))
    );
    assert_eq!(
        render_attribute_template("{{ user.email | upper }}", &ctx, false),
        Ok(Some("JOHN@EXAMPLE.COM".to_string()))
    );
    assert_eq!(render_attribute_template("{{ user.name }}", &ctx, false), Ok(None));
    assert_eq!(
        render_attribute_template("{{ user.name }}", &ctx, true),
        Err(RouteError::RequiredAttributeEmpty { template: "{{ user.name }}".to_string() })
    );
    assert!(matches!(
        render_attribute_template("{{ user.name | nosuchfilter }}", &ctx, true),
        Err(RouteError::RequiredAttributeRender { .. })
    ));
    assert_eq!(render_attribute_template("{{ user.name | nosuchfilter }}", &ctx, false), Ok(None));
}
