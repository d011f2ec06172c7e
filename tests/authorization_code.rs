use mas_federation::authorization_code::{
    add_code, consume_code, lookup_code, CodeChallengeMethod, CodeStore, CodeStoreError, OAuth2Session,
    PkceRequest,
};
use mas_federation::model::UpstreamOAuthSession;
use mas_federation::repository::{AlreadyConsumed, Repository};

fn store() -> CodeStore {
    let mut store = CodeStore::new();
    store.sessions.push(OAuth2Session {
        id: 5,
        client_id: "client".to_string(),
        redirect_uri: "https://client.example/cb".to_string(),
        scope: "openid".to_string(),
        nonce: Some("n".to_string()),
    });
    store
}

#[test]
fn code_is_consumed_exactly_once() {
    let mut store = store();
    let code = add_code(&mut store, 5, "abc", &None).unwrap();
    assert_eq!(code.id, 1);
    assert_eq!(consume_code(&mut store, code.id), Ok(()));
    assert_eq!(consume_code(&mut store, code.id), Err(CodeStoreError::NoRowAffected));
    assert_eq!(consume_code(&mut store, code.id), Err(CodeStoreError::NoRowAffected));
}

#[test]
fn issue_and_lookup() {
    let mut store = store();
    let pkce = Some(PkceRequest {
        code_challenge_method: CodeChallengeMethod::S256,
        code_challenge: "challenge".to_string(),
    });
    let code = add_code(&mut store, 5, "abc", &pkce).unwrap();
    assert_eq!(code.code_challenge.as_deref(), Some("challenge"));
    assert_eq!(code.code_challenge_method, Some(1));
    let found = lookup_code(&store, "abc").unwrap();
    assert_eq!(found.id, code.id);
    assert_eq!(found.oauth2_session_id, 5);
    assert_eq!(found.client_id, "client");
    assert_eq!(found.redirect_uri, "https://client.example/cb");
    assert_eq!(found.scope, "openid");
    assert_eq!(found.nonce.as_deref(), Some("n"));
    let missing = lookup_code(&store, "nope").unwrap_err();
    assert!(missing.not_found());
    let plain = add_code(
        &mut store,
        5,
        "def",
        &Some(PkceRequest { code_challenge_method: CodeChallengeMethod::Plain, code_challenge: "c".to_string() }),
    )
    .unwrap();
    assert_eq!(plain.code_challenge_method, Some(0));
    assert_eq!(plain.id, 2);
}

#[test]
fn issuing_errors() {
    let mut store = store();
    add_code(&mut store, 5, "abc", &None).unwrap();
    assert_eq!(add_code(&mut store, 5, "abc", &None), Err(CodeStoreError::DuplicateCode));
    assert_eq!(add_code(&mut store, 6, "xyz", &None), Err(CodeStoreError::UnknownSession));
    store.next_id = i64::MAX;
    assert_eq!(add_code(&mut store, 5, "xyz", &None), Err(CodeStoreError::IdsExhausted));
    assert_eq!(store.codes.len(), 1);
}

#[test]
fn upstream_session_is_consumed_once() {
    let mut repo = Repository {
        users: vec![],
        user_emails: vec![],
        browser_sessions: vec![],
        session_authentications: vec![],
        providers: vec![],
        links: vec![],
        upstream_sessions: vec![UpstreamOAuthSession {
            id: 1,
            provider_id: 2,
            state: "state".to_string(),
            nonce: "nonce".to_string(),
            link_id: None,
            id_token_claims: None,
            extra_callback_parameters: None,
            userinfo: None,
            created_at: 0,
            consumed_at: None,
        }],
        terms_acceptances: vec![],
        jobs: vec![],
    };
    assert_eq!(repo.consume_upstream_session(0, 100), Ok(()));
    assert_eq!(repo.upstream_sessions[0].consumed_at, Some(100));
    assert_eq!(repo.consume_upstream_session(0, 200), Err(AlreadyConsumed));
    assert_eq!(repo.upstream_sessions[0].consumed_at, Some(100));
}

#[test]
fn new_user_sub_is_the_identifier_text() {
    let mut repo = Repository {
        users: vec![],
        user_emails: vec![],
        browser_sessions: vec![],
        session_authentications: vec![],
        providers: vec![],
        links: vec![],
        upstream_sessions: vec![],
        terms_acceptances: vec![],
        jobs: vec![],
    };
    let user = repo.add_user("john".to_string(), 5, 31 * 32 + 10);
    assert_eq!(user.sub, "000000000000000000000000ZA");
    assert_eq!(repo.users[0].sub, user.sub);
}
