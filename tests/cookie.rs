use mas_federation::cookie::{PostAuthAction, UpstreamSessionNotFound, UpstreamSessionsCookie};

const NOW: u64 = 1_700_000_000_000;

fn key() -> Vec<u8> {
    b"cookie signing key".to_vec()
}

fn session(at: u64, n: u128) -> u128 {
    ((at as u128) << 80) | n
}

fn sample() -> UpstreamSessionsCookie {
    UpstreamSessionsCookie::new()
        .add(session(NOW, 1), 0xAA, "state-one".to_string(), None)
        .add(
            session(NOW, 2),
            0xBB,
            "état-deux".to_string(),
            Some(PostAuthAction::ContinueAuthorizationGrant { id: 42 }),
        )
        .add_link_to_session(session(NOW, 2), 0x2222)
        .unwrap()
}

#[test]
fn save_then_load_round_trips() {
    let cookie = sample();
    let raw = cookie.clone().save(&key(), NOW);
    let loaded = UpstreamSessionsCookie::load(&raw, &key(), NOW);
    assert_eq!(loaded, cookie);
    // Saving what was loaded gives the same value again.
    assert_eq!(loaded.save(&key(), NOW), raw);
}

#[test]
fn forged_or_garbled_cookie_loads_empty() {
    let raw = sample().save(&key(), NOW).unwrap();
    assert!(UpstreamSessionsCookie::load(&Some(raw.clone()), &b"another key".to_vec(), NOW).is_empty());
    let mut tampered = raw.clone();
    let last = tampered.len() - 1;
    tampered[last] ^= 1;
    assert!(UpstreamSessionsCookie::load(&Some(tampered), &key(), NOW).is_empty());
    assert!(UpstreamSessionsCookie::load(&Some(vec![1, 2, 3]), &key(), NOW).is_empty());
    assert!(UpstreamSessionsCookie::load(&None, &key(), NOW).is_empty());
}

#[test]
fn empty_cookie_is_removed() {
    assert_eq!(UpstreamSessionsCookie::new().save(&key(), NOW), None);
}

#[test]
fn expired_entries_are_dropped() {
    let cookie = UpstreamSessionsCookie::new()
        .add(session(NOW - 600_001, 1), 0xAA, "old".to_string(), None)
        .add(session(NOW - 600_000, 2), 0xAA, "edge".to_string(), None);
    let kept = cookie.expire(NOW);
    assert_eq!(kept.entries.len(), 1);
    assert_eq!(kept.entries[0].state, "edge");
    let raw = UpstreamSessionsCookie::new().add(session(NOW, 3), 0xAA, "s".to_string(), None).save(&key(), NOW);
    assert!(UpstreamSessionsCookie::load(&raw, &key(), NOW + 600_001).is_empty());
}

#[test]
fn links_are_attached_looked_up_and_consumed() {
    let cookie = sample();
    assert_eq!(
        cookie.lookup_link(0x2222),
        Ok((session(NOW, 2), Some(PostAuthAction::ContinueAuthorizationGrant { id: 42 })))
    );
    assert_eq!(cookie.lookup_link(0x9999), Err(UpstreamSessionNotFound));
    let cookie = cookie.add_link_to_session(session(NOW, 1), 0x1111).unwrap();
    assert_eq!(cookie.lookup_link(0x1111), Ok((session(NOW, 1), None)));
    // Each attempt takes one link only.
    assert_eq!(cookie.clone().add_link_to_session(session(NOW, 1), 0x3333), Err(UpstreamSessionNotFound));
    assert_eq!(cookie.clone().add_link_to_session(session(NOW, 7), 0x3333), Err(UpstreamSessionNotFound));
    let consumed = cookie.consume_link(0x2222).unwrap();
    assert_eq!(consumed.entries.len(), 1);
    assert_eq!(consumed.lookup_link(0x2222), Err(UpstreamSessionNotFound));
    assert_eq!(consumed.consume_link(0x2222), Err(UpstreamSessionNotFound));
}

#[test]
fn encoding_is_stable() {
    let cookie = UpstreamSessionsCookie::new().add(1, 2, "s".to_string(), Some(PostAuthAction::ChangePassword));
    let bytes = cookie.encode();
    assert_eq!(bytes.len(), 82 + 1);
    assert_eq!(bytes[15], 1);
    assert_eq!(bytes[31], 2);
    assert_eq!(bytes[32], 0);
    assert_eq!(bytes[49], 4);
    assert_eq!(bytes[81], 1);
    assert_eq!(bytes[82], b's');
    assert_eq!(UpstreamSessionsCookie::decode(&bytes), Some(cookie));
    assert_eq!(UpstreamSessionsCookie::decode(&bytes[..81].to_vec()), None);
}
