use mas_federation::claims::{AttributeMappingContext, Claims};
use mas_federation::ids::{created_at_of, mint};

fn claims(pairs: &[(&str, &str)]) -> Claims {
    let mut c = Claims::new();
    for (k, v) in pairs {
        c.push(k.to_string(), v.to_string());
    }
    c
}

#[test]
fn earlier_sources_win_when_merging() {
    let ctx = AttributeMappingContext::new()
        .with_id_token_claims(claims(&[("email", "a@example.com"), ("name", "A")]))
        .with_userinfo_claims(claims(&[("email", "b@example.com"), ("locale", "fr")]))
        .build();
    let user = ctx.user.unwrap();
    assert_eq!(user, claims(&[("email", "a@example.com"), ("name", "A"), ("locale", "fr")]));
    assert!(user.contains(&"locale".to_string()));
    assert!(!user.contains(&"missing".to_string()));
}

#[test]
fn user_variable_needs_a_claims_source() {
    let ctx = AttributeMappingContext::new()
        .with_extra_callback_parameters(claims(&[("code", "x")]))
        .build();
    assert_eq!(ctx.user, None);
    let ctx = AttributeMappingContext::new().with_userinfo_claims(claims(&[("sub", "1")])).build();
    assert_eq!(ctx.user, Some(claims(&[("sub", "1")])));
}

#[test]
fn identifiers_carry_their_time() {
    let id = mint(1_700_000_000_000, 0xFFFF, 3);
    assert_eq!(id >> 80, 1_700_000_000_000);
    assert_eq!(id & 0xFFFF_FFFF, 0xFFFF / 16 + 3);
    assert_eq!(created_at_of(id), 1_700_000_000_000);
}
