//! The signed, client-held cookie that correlates in-flight upstream logins
//! across redirects, keyed by upstream session.
//!
//! Its value is an HMAC-SHA256 tag of 32 bytes followed by the entries, each
//! laid out as: session, provider (16 bytes each), a link tag byte and the
//! link (16 bytes), an action tag byte and the action's identifier (16 bytes),
//! the byte length of the state (16 bytes), then the state in UTF-8.
use vstd::prelude::*;
use vstd::utf8::{
    decode_utf8, decode_utf8_encode_utf8, encode_utf8, encode_utf8_decode_utf8, encode_utf8_valid_utf8,
    valid_utf8,
};

use crate::codec::{copy_range, get_u128, lemma_u128_round_trip, put_bytes, put_u128, u128_at, u128_bytes};
use crate::ids::{created_at_of, ulid_timestamp};
use crate::repository::{find_first, first_match, lemma_find_first};

verus! {

/// Where to send the user once the upstream login completes.
#[derive(Debug, Clone, Copy, PartialEq, Eq)]
pub enum PostAuthAction {
    ContinueAuthorizationGrant { id: u128 },
    ContinueDeviceCodeGrant { id: u128 },
    ContinueCompatSsoLogin { id: u128 },
    ChangePassword,
    LinkUpstream { id: u128 },
    ManageAccount,
}

/// One in-flight upstream login.
#[derive(Debug, Clone, PartialEq, Eq)]
pub struct CookieEntry {
    pub session: u128,
    pub provider: u128,
    pub state: String,
    pub link: Option<u128>,
    pub post_auth_action: Option<PostAuthAction>,
}

/// What an entry holds.
pub ghost struct EntryView {
    pub session: u128,
    pub provider: u128,
    pub state: Seq<char>,
    pub link: Option<u128>,
    pub post_auth_action: Option<PostAuthAction>,
}

impl View for CookieEntry {
    type V = EntryView;

    open spec fn view(&self) -> EntryView {
        EntryView {
            session: self.session,
            provider: self.provider,
            state: self.state@,
            link: self.link,
            post_auth_action: self.post_auth_action,
        }
    }
}

/// No in-flight login matches.
#[derive(Debug, Clone, Copy, PartialEq, Eq)]
pub struct UpstreamSessionNotFound;

/// How long an in-flight login is kept: ten minutes.
pub const SESSION_MAX_AGE_MS: u64 = 600_000;

/// Whether an entry is too old at `now`; its age is read from the session's
/// identifier.
pub open spec fn expired(e: EntryView, now: u64) -> bool {
    now as int - ulid_timestamp(e.session) as int > SESSION_MAX_AGE_MS as int
}

/// The entries of `s` that have not expired at `now`, in order.
pub open spec fn live(s: Seq<EntryView>, now: u64) -> Seq<EntryView>
    decreases s.len(),
{
    if s.len() == 0 {
        s
    } else {
        let rest = live(s.drop_last(), now);
        if expired(s.last(), now) {
            rest
        } else {
            rest.push(s.last())
        }
    }
}

/// Dropping expired entries twice drops nothing more.
pub proof fn lemma_live_idempotent(s: Seq<EntryView>, now: u64)
    ensures
        live(live(s, now), now) == live(s, now),
        forall|i: int| 0 <= i < live(s, now).len() ==> !expired(#[trigger] live(s, now)[i], now),
    decreases s.len(),
{
    if s.len() > 0 {
        lemma_live_idempotent(s.drop_last(), now);
        let rest = live(s.drop_last(), now);
        if !expired(s.last(), now) {
            assert(rest.push(s.last()).drop_last() =~= rest);
        }
    }
}

/// The tag byte of a link.
pub open spec fn link_tag(l: Option<u128>) -> u8 {
    match l {
        Some(_) => 1,
        None => 0,
    }
}

/// The identifier stored for a link.
pub open spec fn link_id(l: Option<u128>) -> u128 {
    match l {
        Some(id) => id,
        None => 0,
    }
}

/// The link stored as a tag and an identifier, `None` for an unknown tag.
pub open spec fn link_of(tag: u8, id: u128) -> Option<Option<u128>> {
    if tag == 0 {
        Some(None)
    } else if tag == 1 {
        Some(Some(id))
    } else {
        None
    }
}

/// The tag byte of a post-authentication action.
pub open spec fn action_tag(a: Option<PostAuthAction>) -> u8 {
    match a {
        None => 0,
        Some(PostAuthAction::ContinueAuthorizationGrant { .. }) => 1,
        Some(PostAuthAction::ContinueDeviceCodeGrant { .. }) => 2,
        Some(PostAuthAction::ContinueCompatSsoLogin { .. }) => 3,
        Some(PostAuthAction::ChangePassword) => 4,
        Some(PostAuthAction::LinkUpstream { .. }) => 5,
        Some(PostAuthAction::ManageAccount) => 6,
    }
}

/// The identifier stored for a post-authentication action.
pub open spec fn action_id(a: Option<PostAuthAction>) -> u128 {
    match a {
        Some(PostAuthAction::ContinueAuthorizationGrant { id }) => id,
        Some(PostAuthAction::ContinueDeviceCodeGrant { id }) => id,
        Some(PostAuthAction::ContinueCompatSsoLogin { id }) => id,
        Some(PostAuthAction::LinkUpstream { id }) => id,
        _ => 0,
    }
}

/// The action stored as a tag and an identifier, `None` for an unknown tag.
pub open spec fn action_of(tag: u8, id: u128) -> Option<Option<PostAuthAction>> {
    if tag == 0 {
        Some(None)
    } else if tag == 1 {
        Some(Some(PostAuthAction::ContinueAuthorizationGrant { id }))
    } else if tag == 2 {
        Some(Some(PostAuthAction::ContinueDeviceCodeGrant { id }))
    } else if tag == 3 {
        Some(Some(PostAuthAction::ContinueCompatSsoLogin { id }))
    } else if tag == 4 {
        Some(Some(PostAuthAction::ChangePassword))
    } else if tag == 5 {
        Some(Some(PostAuthAction::LinkUpstream { id }))
    } else if tag == 6 {
        Some(Some(PostAuthAction::ManageAccount))
    } else {
        None
    }
}

/// The bytes of an entry from its link onward.
pub open spec fn entry_tail(e: EntryView) -> Seq<u8> {
    u128_bytes(link_id(e.link)) + (seq![action_tag(e.post_auth_action)] + (u128_bytes(
        action_id(e.post_auth_action),
    ) + (u128_bytes(encode_utf8(e.state).len() as u128) + encode_utf8(e.state))))
}

/// The bytes of one entry.
#[verifier::opaque]
pub open spec fn entry_bytes(e: EntryView) -> Seq<u8> {
    u128_bytes(e.session) + (u128_bytes(e.provider) + (seq![link_tag(e.link)] + entry_tail(e)))
}

/// The bytes of a list of entries.
pub open spec fn entries_bytes(s: Seq<EntryView>) -> Seq<u8>
    decreases s.len(),
{
    if s.len() == 0 {
        Seq::empty()
    } else {
        entry_bytes(s[0]) + entries_bytes(s.drop_first())
    }
}

/// The entry whose bytes start at `p`, and where the next one starts.
#[verifier::opaque]
pub open spec fn parse_entry(b: Seq<u8>, p: int) -> Option<(EntryView, int)> {
    if p < 0 || p + 82 > b.len() {
        None
    } else {
        let len = u128_at(b, p + 66) as int;
        let state = b.subrange(p + 82, p + 82 + len);
        if p + 82 + len > b.len() || !valid_utf8(state) {
            None
        } else {
            match (link_of(b[p + 32], u128_at(b, p + 33)), action_of(b[p + 49], u128_at(b, p + 50))) {
                (Some(link), Some(action)) => Some(
                    (
                        EntryView {
                            session: u128_at(b, p),
                            provider: u128_at(b, p + 16),
                            state: decode_utf8(state),
                            link,
                            post_auth_action: action,
                        },
                        p + 82 + len,
                    ),
                ),
                _ => None,
            }
        }
    }
}

/// The entries whose bytes run from `p` to the end of `b`.
pub open spec fn decode_from(b: Seq<u8>, p: int) -> Option<Seq<EntryView>>
    decreases b.len() - p,
{
    if p < 0 || p >= b.len() {
        if p == b.len() {
            Some(Seq::empty())
        } else {
            None
        }
    } else {
        match parse_entry(b, p) {
            Some((e, q)) => if p < q <= b.len() {
                match decode_from(b, q) {
                    Some(rest) => Some(seq![e] + rest),
                    None => None,
                }
            } else {
                None
            },
            None => None,
        }
    }
}

/// Whether the state of every entry fits in memory.
pub open spec fn fits(s: Seq<EntryView>) -> bool {
    forall|i: int| 0 <= i < s.len() ==> encode_utf8(#[trigger] s[i].state).len() <= usize::MAX
}

/// The integer read at the start of `v`'s bytes followed by anything.
proof fn lemma_u128_head(v: u128, rest: Seq<u8>)
    ensures
        u128_at(u128_bytes(v) + rest, 0) == v,
{
    lemma_u128_round_trip(v, Seq::empty(), rest);
    assert(Seq::<u8>::empty() + u128_bytes(v) + rest =~= u128_bytes(v) + rest);
}

/// Reading at `q` in `b` is reading at the start of what follows `q`.
proof fn lemma_u128_shift(b: Seq<u8>, q: int)
    requires
        0 <= q,
        q + 16 <= b.len(),
    ensures
        u128_at(b, q) == u128_at(b.subrange(q, b.len() as int), 0),
{
    let c = b.subrange(q, b.len() as int);
    assert(c[0] == b[q] && c[1] == b[q + 1] && c[2] == b[q + 2] && c[3] == b[q + 3]);
    assert(c[4] == b[q + 4] && c[5] == b[q + 5] && c[6] == b[q + 6] && c[7] == b[q + 7]);
    assert(c[8] == b[q + 8] && c[9] == b[q + 9] && c[10] == b[q + 10] && c[11] == b[q + 11]);
    assert(c[12] == b[q + 12] && c[13] == b[q + 13] && c[14] == b[q + 14] && c[15] == b[q + 15]);
}

/// Reading an integer's bytes at `q`, and what follows them.
proof fn lemma_step_u128(v: u128, r: Seq<u8>, b: Seq<u8>, q: int)
    requires
        0 <= q <= b.len(),
        b.subrange(q, b.len() as int) == u128_bytes(v) + r,
    ensures
        u128_at(b, q) == v,
        b.subrange(q + 16, b.len() as int) == r,
{
    assert(u128_bytes(v).len() == 16);
    assert(b.subrange(q, b.len() as int).len() == b.len() - q);
    assert(q + 16 <= b.len());
    lemma_u128_shift(b, q);
    lemma_u128_head(v, r);
    assert(b.subrange(q + 16, b.len() as int) =~= r) by {
        assert forall|k: int| 0 <= k < r.len() implies #[trigger] b.subrange(q + 16, b.len() as int)[k]
            == r[k] by {
            assert(b.subrange(q, b.len() as int)[16 + k] == (u128_bytes(v) + r)[16 + k]);
            assert(b.subrange(q, b.len() as int)[16 + k] == b[q + 16 + k]);
            assert(b.subrange(q + 16, b.len() as int)[k] == b[q + 16 + k]);
        }
    }
}

/// Reading a tag byte at `q`, and what follows it.
proof fn lemma_step_byte(t: u8, r: Seq<u8>, b: Seq<u8>, q: int)
    requires
        0 <= q <= b.len(),
        b.subrange(q, b.len() as int) == seq![t] + r,
    ensures
        b[q] == t,
        b.subrange(q + 1, b.len() as int) == r,
{
    assert(seq![t].len() == 1);
    assert(b.subrange(q, b.len() as int).len() == b.len() - q);
    assert(q + 1 <= b.len());
    assert(b.subrange(q, b.len() as int)[0] == (seq![t] + r)[0]);
    assert(b.subrange(q, b.len() as int)[0] == b[q]);
    assert((seq![t] + r)[0] == t);
    assert(b.subrange(q + 1, b.len() as int) =~= r) by {
        assert forall|k: int| 0 <= k < r.len() implies #[trigger] b.subrange(q + 1, b.len() as int)[k]
            == r[k] by {
            assert(b.subrange(q, b.len() as int)[1 + k] == (seq![t] + r)[1 + k]);
            assert(b.subrange(q, b.len() as int)[1 + k] == b[q + 1 + k]);
            assert(b.subrange(q + 1, b.len() as int)[k] == b[q + 1 + k]);
        }
    }
}

/// The fields from the link onward read back from their bytes.
proof fn lemma_tail_fields(e: EntryView, post: Seq<u8>, b: Seq<u8>, q: int)
    requires
        0 <= q <= b.len(),
        b.subrange(q, b.len() as int) == entry_tail(e) + post,
    ensures
        u128_at(b, q) == link_id(e.link),
        b[q + 16] == action_tag(e.post_auth_action),
        u128_at(b, q + 17) == action_id(e.post_auth_action),
        u128_at(b, q + 33) == encode_utf8(e.state).len() as u128,
        b.subrange(q + 49, b.len() as int) == encode_utf8(e.state) + post,
{
    let sb = encode_utf8(e.state);
    let r6 = u128_bytes(sb.len() as u128) + sb;
    let r5 = u128_bytes(action_id(e.post_auth_action)) + r6;
    let r4 = seq![action_tag(e.post_auth_action)] + r5;
    assert(entry_tail(e) + post =~= u128_bytes(link_id(e.link)) + (r4 + post));
    lemma_step_u128(link_id(e.link), r4 + post, b, q);
    assert(r4 + post =~= seq![action_tag(e.post_auth_action)] + (r5 + post));
    lemma_step_byte(action_tag(e.post_auth_action), r5 + post, b, q + 16);
    assert(r5 + post =~= u128_bytes(action_id(e.post_auth_action)) + (r6 + post));
    lemma_step_u128(action_id(e.post_auth_action), r6 + post, b, q + 17);
    assert(r6 + post =~= u128_bytes(sb.len() as u128) + (sb + post));
    lemma_step_u128(sb.len() as u128, sb + post, b, q + 33);
}

/// The fields of an entry read back from its bytes.
proof fn lemma_entry_fields(e: EntryView, post: Seq<u8>, b: Seq<u8>, p: int)
    requires
        0 <= p <= b.len(),
        b.subrange(p, b.len() as int) == entry_bytes(e) + post,
    ensures
        u128_at(b, p) == e.session,
        u128_at(b, p + 16) == e.provider,
        b[p + 32] == link_tag(e.link),
        b.subrange(p + 33, b.len() as int) == entry_tail(e) + post,
        entry_bytes(e).len() == 82 + encode_utf8(e.state).len(),
{
    reveal(entry_bytes);
    let r2 = seq![link_tag(e.link)] + entry_tail(e);
    let r1 = u128_bytes(e.provider) + r2;
    assert(entry_bytes(e) + post =~= u128_bytes(e.session) + (r1 + post));
    lemma_step_u128(e.session, r1 + post, b, p);
    assert(r1 + post =~= u128_bytes(e.provider) + (r2 + post));
    lemma_step_u128(e.provider, r2 + post, b, p + 16);
    assert(r2 + post =~= seq![link_tag(e.link)] + (entry_tail(e) + post));
    lemma_step_byte(link_tag(e.link), entry_tail(e) + post, b, p + 32);
}

/// Parsing the bytes of an entry gives the entry back.
proof fn lemma_entry_round_trip(e: EntryView, pre: Seq<u8>, post: Seq<u8>)
    requires
        encode_utf8(e.state).len() <= usize::MAX,
    ensures
        parse_entry(pre + entry_bytes(e) + post, pre.len() as int) == Some(
            (e, pre.len() + entry_bytes(e).len() as int),
        ),
        entry_bytes(e).len() == 82 + encode_utf8(e.state).len(),
{
    reveal(parse_entry);
    let sb = encode_utf8(e.state);
    let b = pre + entry_bytes(e) + post;
    let p = pre.len() as int;
    let n = b.len() as int;
    assert(b.subrange(p, n) =~= entry_bytes(e) + post);
    lemma_entry_fields(e, post, b, p);
    lemma_tail_fields(e, post, b, p + 33);
    assert(b.subrange(p + 82, p + 82 + sb.len()) =~= sb) by {
        assert forall|k: int| 0 <= k < sb.len() implies #[trigger] b.subrange(p + 82, p + 82 + sb.len())[k]
            == sb[k] by {
            assert(b.subrange(p + 82, n)[k] == (sb + post)[k]);
        }
    }
    encode_utf8_valid_utf8(e.state);
    encode_utf8_decode_utf8(e.state);
}

/// Decoding the bytes of a list of entries gives the list back.
proof fn lemma_entries_round_trip(s: Seq<EntryView>, pre: Seq<u8>)
    requires
        fits(s),
    ensures
        decode_from(pre + entries_bytes(s), pre.len() as int) == Some(s),
    decreases s.len(),
{
    if s.len() == 0 {
        assert(pre + entries_bytes(s) =~= pre);
        assert(s =~= Seq::<EntryView>::empty());
    } else {
        let rest = s.drop_first();
        assert(fits(rest)) by {
            assert forall|i: int| 0 <= i < rest.len() implies encode_utf8(#[trigger] rest[i].state).len()
                <= usize::MAX by {
                assert(rest[i] == s[i + 1]);
            }
        }
        assert(encode_utf8(s[0].state).len() <= usize::MAX);
        let b = pre + entries_bytes(s);
        assert(b =~= pre + entry_bytes(s[0]) + entries_bytes(rest));
        lemma_entry_round_trip(s[0], pre, entries_bytes(rest));
        lemma_entries_round_trip(rest, pre + entry_bytes(s[0]));
        assert(b =~= (pre + entry_bytes(s[0])) + entries_bytes(rest));
        assert(seq![s[0]] + rest =~= s);
    }
}

/// Appending an entry appends its bytes.
proof fn lemma_entries_bytes_push(s: Seq<EntryView>, e: EntryView)
    ensures
        entries_bytes(s.push(e)) == entries_bytes(s) + entry_bytes(e),
    decreases s.len(),
{
    if s.len() == 0 {
        assert(s.push(e).drop_first() =~= Seq::<EntryView>::empty());
        assert(s.push(e)[0] == e);
        assert(entries_bytes(s.push(e).drop_first()) == Seq::<u8>::empty());
        assert(entries_bytes(s.push(e)) =~= entry_bytes(e));
    } else {
        lemma_entries_bytes_push(s.drop_first(), e);
        assert(s.push(e).drop_first() =~= s.drop_first().push(e));
        assert(entries_bytes(s.push(e)) =~= entries_bytes(s) + entry_bytes(e));
    }
}

/// The tag of a message under a key.
pub uninterp spec fn hmac_sha256(key: Seq<u8>, msg: Seq<u8>) -> [u8; 32];

/// Relies on `hmac::Hmac<sha2::Sha256>`: the HMAC-SHA256 tag of `msg`, a
/// function of the key and the message. `new_from_slice` accepts keys of any
/// length.
#[verifier::external_body]
fn mac_of(key: &[u8], msg: &[u8]) -> (r: [u8; 32])
    ensures
        r == hmac_sha256(key@, msg@),
{
    let mut mac = <hmac::Hmac<sha2::Sha256> as hmac::Mac>::new_from_slice(key)
        .expect("HMAC takes keys of any length");
    hmac::Mac::update(&mut mac, msg);
    hmac::Mac::finalize(mac).into_bytes().into()
}

/// Relies on `String::from_utf8`: it succeeds exactly on valid UTF-8, and the
/// string holds the characters those bytes encode.
#[verifier::external_body]
fn string_from_utf8(bytes: Vec<u8>) -> (r: Option<String>)
    ensures
        r is Some <==> valid_utf8(bytes@),
        r matches Some(s) ==> s@ == decode_utf8(bytes@),
{
    String::from_utf8(bytes).ok()
}

/// The entries a cookie value holds: none unless its tag is right and its
/// entries decode; expired ones dropped.
pub open spec fn spec_load(raw: Option<Seq<u8>>, key: Seq<u8>, now: u64) -> Seq<EntryView> {
    match raw {
        None => Seq::empty(),
        Some(b) => if b.len() >= 32 && b.subrange(0, 32) == hmac_sha256(key, b.subrange(32, b.len() as int))@ {
            match decode_from(b.subrange(32, b.len() as int), 0) {
                Some(s) => live(s, now),
                None => Seq::empty(),
            }
        } else {
            Seq::empty()
        },
    }
}

/// The cookie value that stores the live entries of `s`; `None`, which
/// removes the cookie, when none is live.
pub open spec fn spec_save(s: Seq<EntryView>, key: Seq<u8>, now: u64) -> Option<Seq<u8>> {
    let l = live(s, now);
    if l.len() == 0 {
        None
    } else {
        Some(hmac_sha256(key, entries_bytes(l))@ + entries_bytes(l))
    }
}

/// Loading what was saved gives back the live entries, and saving that again
/// gives the same cookie value: saving a loaded cookie is idempotent.
pub proof fn lemma_cookie_round_trip(s: Seq<EntryView>, key: Seq<u8>, now: u64)
    requires
        fits(s),
    ensures
        spec_load(spec_save(s, key, now), key, now) == live(s, now),
        spec_save(spec_load(spec_save(s, key, now), key, now), key, now) == spec_save(s, key, now),
{
    lemma_live_idempotent(s, now);
    let l = live(s, now);
    lemma_live_fits(s, now);
    if l.len() > 0 {
        let payload = entries_bytes(l);
        let tag = hmac_sha256(key, payload);
        vstd::array::array_len_matches_n(&tag);
        let b = tag@ + payload;
        assert(b.subrange(0, 32) =~= tag@);
        assert(b.subrange(32, b.len() as int) =~= payload);
        lemma_entries_round_trip(l, Seq::empty());
        assert(Seq::<u8>::empty() + payload =~= payload);
    }
}

/// Saving a loaded cookie is idempotent: for any cookie value, saving what
/// it loads to, loading that and saving again gives the same value.
pub proof fn lemma_save_load_idempotent(raw: Option<Seq<u8>>, key: Seq<u8>, now: u64)
    requires
        raw matches Some(b) ==> b.len() <= usize::MAX,
    ensures
        spec_save(spec_load(spec_save(spec_load(raw, key, now), key, now), key, now), key, now)
            == spec_save(spec_load(raw, key, now), key, now),
{
    if let Some(b) = raw {
        if b.len() >= 32 {
            lemma_decoded_fit(b.subrange(32, b.len() as int), 0);
            if let Some(s) = decode_from(b.subrange(32, b.len() as int), 0) {
                lemma_live_fits(s, now);
            }
        }
    }
    lemma_cookie_round_trip(spec_load(raw, key, now), key, now);
}

/// The entries decoded from bytes that fit in memory fit too.
proof fn lemma_decoded_fit(b: Seq<u8>, p: int)
    requires
        b.len() <= usize::MAX,
    ensures
        decode_from(b, p) matches Some(s) ==> fits(s),
    decreases b.len() - p,
{
    if 0 <= p < b.len() {
        reveal(parse_entry);
        if let Some((e, q)) = parse_entry(b, p) {
            if p < q <= b.len() {
                lemma_decoded_fit(b, q);
                let len = u128_at(b, p + 66) as int;
                let state = b.subrange(p + 82, p + 82 + len);
                decode_utf8_encode_utf8(state);
                if let Some(rest) = decode_from(b, q) {
                    let s = seq![e] + rest;
                    assert forall|i: int| 0 <= i < s.len() implies encode_utf8(#[trigger] s[i].state).len()
                        <= usize::MAX by {
                        if i > 0 {
                            assert(s[i] == rest[i - 1]);
                        }
                    }
                }
            }
        }
    }
}

/// A cookie value whose tag does not match its contents loads as no entry.
pub proof fn lemma_forged_cookie_is_empty(raw: Seq<u8>, key: Seq<u8>, now: u64)
    requires
        raw.len() < 32 || raw.subrange(0, 32) != hmac_sha256(key, raw.subrange(32, raw.len() as int))@,
    ensures
        spec_load(Some(raw), key, now) == Seq::<EntryView>::empty(),
{
}

/// The live entries of a list whose states fit still fit.
proof fn lemma_live_fits(s: Seq<EntryView>, now: u64)
    requires
        fits(s),
    ensures
        fits(live(s, now)),
    decreases s.len(),
{
    if s.len() > 0 {
        assert(fits(s.drop_last())) by {
            assert forall|i: int| 0 <= i < s.drop_last().len() implies encode_utf8(
                #[trigger] s.drop_last()[i].state,
            ).len() <= usize::MAX by {
                assert(s.drop_last()[i] == s[i]);
            }
        }
        lemma_live_fits(s.drop_last(), now);
        assert(encode_utf8(s.last().state).len() <= usize::MAX);
    }
}

/// `i` is the first entry for `session` that has no link yet.
pub open spec fn pending_at(s: Seq<EntryView>, session: u128, i: usize) -> bool {
    first_match(s, |e: EntryView| e.session == session && e.link is None, Some(i))
}

/// No entry for `session` lacks a link.
pub open spec fn no_pending(s: Seq<EntryView>, session: u128) -> bool {
    first_match(s, |e: EntryView| e.session == session && e.link is None, None)
}

/// `i` is the first entry bound to `link`.
pub open spec fn linked_at(s: Seq<EntryView>, link: u128, i: usize) -> bool {
    first_match(s, |e: EntryView| e.link == Some(link), Some(i))
}

/// No entry is bound to `link`.
pub open spec fn no_link(s: Seq<EntryView>, link: u128) -> bool {
    first_match(s, |e: EntryView| e.link == Some(link), None)
}

/// The optional view of optional bytes.
pub open spec fn opt_bytes(raw: Option<Vec<u8>>) -> Option<Seq<u8>> {
    match raw {
        Some(b) => Some(b@),
        None => None,
    }
}

/// `Some(s + rest)` when `o` is `Some(rest)`.
pub open spec fn prepend(s: Seq<EntryView>, o: Option<Seq<EntryView>>) -> Option<Seq<EntryView>> {
    match o {
        Some(rest) => Some(s + rest),
        None => None,
    }
}

impl CookieEntry {
    /// A copy of the entry.
    pub fn duplicate(&self) -> (r: CookieEntry)
        ensures
            r@ == self@,
    {
        CookieEntry {
            session: self.session,
            provider: self.provider,
            state: self.state.clone(),
            link: self.link,
            post_auth_action: self.post_auth_action,
        }
    }

    /// Whether the entry is too old at `now`.
    pub fn is_expired(&self, now: u64) -> (r: bool)
        ensures
            r == expired(self@, now),
    {
        let created = created_at_of(self.session);
        now > created && now - created > SESSION_MAX_AGE_MS
    }

    /// Appends the bytes of the entry.
    pub fn encode_into(&self, out: &mut Vec<u8>)
        ensures
            final(out)@ == old(out)@ + entry_bytes(self@),
    {
        reveal(entry_bytes);
        let bytes = self.state.as_str().as_bytes();
        put_u128(out, self.session);
        put_u128(out, self.provider);
        match self.link {
            Some(id) => {
                out.push(1);
                put_u128(out, id);
            },
            None => {
                out.push(0);
                put_u128(out, 0);
            },
        }
        let (tag, id): (u8, u128) = match self.post_auth_action {
            None => (0, 0),
            Some(PostAuthAction::ContinueAuthorizationGrant { id }) => (1, id),
            Some(PostAuthAction::ContinueDeviceCodeGrant { id }) => (2, id),
            Some(PostAuthAction::ContinueCompatSsoLogin { id }) => (3, id),
            Some(PostAuthAction::ChangePassword) => (4, 0),
            Some(PostAuthAction::LinkUpstream { id }) => (5, id),
            Some(PostAuthAction::ManageAccount) => (6, 0),
        };
        out.push(tag);
        put_u128(out, id);
        put_u128(out, bytes.len() as u128);
        put_bytes(out, bytes);
        assert(final(out)@ =~= old(out)@ + entry_bytes(self@));
    }

    /// The entry whose bytes start at `p`, and where the next one starts.
    pub fn parse(b: &Vec<u8>, p: usize) -> (r: Option<(CookieEntry, usize)>)
        ensures
            match parse_entry(b@, p as int) {
                Some((e, q)) => (r matches Some((c, q2)) && c@ == e && q2 as int == q && p < q
                    <= b@.len()),
                None => r is None,
            },
    {
        reveal(parse_entry);
        let n = b.len();
        if p > n || n - p < 82 {
            return None;
        }
        let len = get_u128(b, p + 66);
        if len > (n - (p + 82)) as u128 {
            return None;
        }
        let end = p + 82 + len as usize;
        let link = match b[p + 32] {
            0 => None,
            1 => Some(get_u128(b, p + 33)),
            _ => {
                return None;
            },
        };
        let id = get_u128(b, p + 50);
        let action = match b[p + 49] {
            0 => None,
            1 => Some(PostAuthAction::ContinueAuthorizationGrant { id }),
            2 => Some(PostAuthAction::ContinueDeviceCodeGrant { id }),
            3 => Some(PostAuthAction::ContinueCompatSsoLogin { id }),
            4 => Some(PostAuthAction::ChangePassword),
            5 => Some(PostAuthAction::LinkUpstream { id }),
            6 => Some(PostAuthAction::ManageAccount),
            _ => {
                return None;
            },
        };
        let state = match string_from_utf8(copy_range(b, p + 82, end)) {
            Some(s) => s,
            None => {
                return None;
            },
        };
        let entry = CookieEntry {
            session: get_u128(b, p),
            provider: get_u128(b, p + 16),
            state,
            link,
            post_auth_action: action,
        };
        Some((entry, end))
    }
}

/// The in-flight upstream logins of one browser.
#[derive(Debug, Clone, PartialEq, Eq)]
pub struct UpstreamSessionsCookie {
    pub entries: Vec<CookieEntry>,
}

impl View for UpstreamSessionsCookie {
    type V = Seq<EntryView>;

    open spec fn view(&self) -> Seq<EntryView> {
        self.entries@.map_values(|e: CookieEntry| e@)
    }
}

impl Default for UpstreamSessionsCookie {
    fn default() -> (r: UpstreamSessionsCookie)
        ensures
            r@ == Seq::<EntryView>::empty(),
    {
        UpstreamSessionsCookie::new()
    }
}

impl UpstreamSessionsCookie {
    /// A cookie with no entry.
    pub fn new() -> (r: UpstreamSessionsCookie)
        ensures
            r@ == Seq::<EntryView>::empty(),
    {
        let r = UpstreamSessionsCookie { entries: Vec::new() };
        assert(r@ =~= Seq::<EntryView>::empty());
        r
    }

    /// A copy of the cookie.
    pub fn duplicate(&self) -> (r: UpstreamSessionsCookie)
        ensures
            r@ == self@,
    {
        let mut out = UpstreamSessionsCookie::new();
        let mut i: usize = 0;
        while i < self.entries.len()
            invariant
                i <= self.entries@.len(),
                out@ == self@.subrange(0, i as int),
            decreases self.entries@.len() - i,
        {
            let ghost before = out@;
            out.entries.push(self.entries[i].duplicate());
            assert(out@ =~= before.push(self@[i as int]));
            assert(self@.subrange(0, i + 1) =~= self@.subrange(0, i as int).push(self@[i as int]));
            i += 1;
        }
        assert(self@.subrange(0, self@.len() as int) =~= self@);
        out
    }

    /// Whether the cookie holds no entry.
    pub fn is_empty(&self) -> (r: bool)
        ensures
            r == (self@.len() == 0),
    {
        self.entries.len() == 0
    }

    /// Starts tracking an upstream login.
    pub fn add(
        self,
        session: u128,
        provider: u128,
        state: String,
        post_auth_action: Option<PostAuthAction>,
    ) -> (r: UpstreamSessionsCookie)
        ensures
            r@ == self@.push(
                EntryView { session, provider, state: state@, link: None, post_auth_action },
            ),
    {
        let mut entries = self.entries;
        entries.push(CookieEntry { session, provider, state, link: None, post_auth_action });
        let r = UpstreamSessionsCookie { entries };
        assert(r@ =~= self@.push(
            EntryView { session, provider, state: state@, link: None, post_auth_action },
        ));
        r
    }

    /// Binds the first unbound entry of `session` to `link`; fails when the
    /// cookie never started that login.
    pub fn add_link_to_session(self, session: u128, link: u128) -> (r: Result<
        UpstreamSessionsCookie,
        UpstreamSessionNotFound,
    >)
        ensures
            r is Err <==> no_pending(self@, session),
            forall|i: usize|
                #[trigger] pending_at(self@, session, i) ==> (r matches Ok(c) && c@ == self@.update(
                    i as int,
                    EntryView { link: Some(link), ..self@[i as int] },
                )),
    {
        let mut entries = self.entries;
        let mut i: usize = 0;
        while i < entries.len()
            invariant
                i <= entries@.len(),
                entries@ == self.entries@,
                forall|j: int|
                    0 <= j < i ==> !((#[trigger] self@[j]).session == session && self@[j].link is None),
            decreases entries@.len() - i,
        {
            if entries[i].session == session && entries[i].link.is_none() {
                assert(pending_at(self@, session, i));
                entries[i].link = Some(link);
                let r = UpstreamSessionsCookie { entries };
                assert(r@ =~= self@.update(i as int, EntryView { link: Some(link), ..self@[i as int] }));
                return Ok(r);
            }
            i += 1;
        }
        Err(UpstreamSessionNotFound)
    }

    /// The upstream session and post-authentication action of the first
    /// entry bound to `link`.
    pub fn lookup_link(&self, link: u128) -> (r: Result<
        (u128, Option<PostAuthAction>),
        UpstreamSessionNotFound,
    >)
        ensures
            r is Err <==> no_link(self@, link),
            forall|i: usize|
                #[trigger] linked_at(self@, link, i) ==> r == Ok::<
                    (u128, Option<PostAuthAction>),
                    UpstreamSessionNotFound,
                >((self@[i as int].session, self@[i as int].post_auth_action)),
            match find_first(self@, |e: EntryView| e.link == Some(link)) {
                Some(i) => r == Ok::<(u128, Option<PostAuthAction>), UpstreamSessionNotFound>(
                    (self@[i].session, self@[i].post_auth_action),
                ),
                None => r is Err,
            },
    {
        let mut i: usize = 0;
        while i < self.entries.len()
            invariant
                i <= self.entries@.len(),
                forall|j: int| 0 <= j < i ==> (#[trigger] self@[j]).link != Some(link),
            decreases self.entries@.len() - i,
        {
            if self.entries[i].link == Some(link) {
                assert(linked_at(self@, link, i));
                proof {
                    lemma_find_first(self@, |e: EntryView| e.link == Some(link), Some(i));
                }
                return Ok((self.entries[i].session, self.entries[i].post_auth_action));
            }
            i += 1;
        }
        proof {
            lemma_find_first(self@, |e: EntryView| e.link == Some(link), None);
        }
        Err(UpstreamSessionNotFound)
    }

    /// Removes the first entry bound to `link`, once its login completed.
    pub fn consume_link(self, link: u128) -> (r: Result<UpstreamSessionsCookie, UpstreamSessionNotFound>)
        ensures
            r is Err <==> no_link(self@, link),
            forall|i: usize|
                #[trigger] linked_at(self@, link, i) ==> (r matches Ok(c) && c@ == self@.remove(i as int)),
            match find_first(self@, |e: EntryView| e.link == Some(link)) {
                Some(i) => (r matches Ok(c) && c@ == self@.remove(i)),
                None => r is Err,
            },
    {
        let mut entries = self.entries;
        let mut i: usize = 0;
        while i < entries.len()
            invariant
                i <= entries@.len(),
                entries@ == self.entries@,
                forall|j: int| 0 <= j < i ==> (#[trigger] self@[j]).link != Some(link),
            decreases entries@.len() - i,
        {
            if entries[i].link == Some(link) {
                assert(linked_at(self@, link, i));
                proof {
                    lemma_find_first(self@, |e: EntryView| e.link == Some(link), Some(i));
                }
                entries.remove(i);
                let r = UpstreamSessionsCookie { entries };
                assert(r@ =~= self@.remove(i as int));
                return Ok(r);
            }
            i += 1;
        }
        proof {
            lemma_find_first(self@, |e: EntryView| e.link == Some(link), None);
        }
        Err(UpstreamSessionNotFound)
    }

    /// Drops the entries that expired at `now`.
    pub fn expire(self, now: u64) -> (r: UpstreamSessionsCookie)
        ensures
            r@ == live(self@, now),
    {
        let mut out = UpstreamSessionsCookie::new();
        let mut i: usize = 0;
        while i < self.entries.len()
            invariant
                i <= self.entries@.len(),
                out@ == live(self@.subrange(0, i as int), now),
            decreases self.entries@.len() - i,
        {
            assert(self@.subrange(0, i + 1).drop_last() =~= self@.subrange(0, i as int));
            if !self.entries[i].is_expired(now) {
                let e = self.entries[i].duplicate();
                let ghost before = out@;
                out.entries.push(e);
                assert(out@ =~= before.push(self@[i as int]));
            }
            i += 1;
        }
        assert(self@.subrange(0, self@.len() as int) =~= self@);
        out
    }

    /// The bytes of the entries.
    pub fn encode(&self) -> (r: Vec<u8>)
        ensures
            r@ == entries_bytes(self@),
    {
        let mut out: Vec<u8> = Vec::new();
        let mut i: usize = 0;
        assert(self@.subrange(0, 0) =~= Seq::<EntryView>::empty());
        while i < self.entries.len()
            invariant
                i <= self.entries@.len(),
                out@ == entries_bytes(self@.subrange(0, i as int)),
            decreases self.entries@.len() - i,
        {
            proof {
                lemma_entries_bytes_push(self@.subrange(0, i as int), self@[i as int]);
                assert(self@.subrange(0, i + 1) =~= self@.subrange(0, i as int).push(self@[i as int]));
            }
            self.entries[i].encode_into(&mut out);
            i += 1;
        }
        assert(self@.subrange(0, self@.len() as int) =~= self@);
        out
    }

    /// The entries that `b` encodes, if it encodes any list of entries.
    pub fn decode(b: &Vec<u8>) -> (r: Option<UpstreamSessionsCookie>)
        ensures
            match decode_from(b@, 0) {
                Some(s) => (r matches Some(c) && c@ == s),
                None => r is None,
            },
    {
        let mut out = UpstreamSessionsCookie::new();
        let mut p: usize = 0;
        assert(prepend(out@, decode_from(b@, 0)) =~= decode_from(b@, 0)) by {
            if let Some(s) = decode_from(b@, 0) {
                assert(out@ + s =~= s);
            }
        }
        while p < b.len()
            invariant
                p <= b@.len(),
                decode_from(b@, 0) == prepend(out@, decode_from(b@, p as int)),
            decreases b@.len() - p,
        {
            match CookieEntry::parse(b, p) {
                None => {
                    return None;
                },
                Some((e, q)) => {
                    let ghost before = out@;
                    out.entries.push(e);
                    assert(out@ =~= before.push(e@));
                    proof {
                        if let Some(rest) = decode_from(b@, q as int) {
                            assert(before + (seq![e@] + rest) =~= out@ + rest);
                        }
                    }
                    p = q;
                },
            }
        }
        assert(out@ + Seq::<EntryView>::empty() =~= out@);
        Some(out)
    }

    /// Reads the cookie value `raw`: no entry unless its tag is right under
    /// `key` and its entries decode; entries expired at `now` are dropped.
    pub fn load(raw: &Option<Vec<u8>>, key: &Vec<u8>, now: u64) -> (r: UpstreamSessionsCookie)
        ensures
            r@ == spec_load(opt_bytes(*raw), key@, now),
    {
        match raw {
            None => UpstreamSessionsCookie::new(),
            Some(b) => {
                if b.len() < 32 {
                    return UpstreamSessionsCookie::new();
                }
                let payload = copy_range(b, 32, b.len());
                let tag = mac_of(key.as_slice(), payload.as_slice());
                if !tag_matches(&tag, b) {
                    return UpstreamSessionsCookie::new();
                }
                match UpstreamSessionsCookie::decode(&payload) {
                    Some(c) => c.expire(now),
                    None => UpstreamSessionsCookie::new(),
                }
            },
        }
    }

    /// The cookie value that stores the entries still live at `now`, signed
    /// under `key`; `None`, which removes the cookie, when none is live.
    pub fn save(self, key: &Vec<u8>, now: u64) -> (r: Option<Vec<u8>>)
        ensures
            opt_bytes(r) == spec_save(self@, key@, now),
    {
        let live = self.expire(now);
        if live.is_empty() {
            return None;
        }
        let payload = live.encode();
        let tag = mac_of(key.as_slice(), payload.as_slice());
        let mut out: Vec<u8> = Vec::new();
        put_bytes(&mut out, tag.as_slice());
        put_bytes(&mut out, payload.as_slice());
        assert(out@ =~= hmac_sha256(key@, entries_bytes(live@))@ + entries_bytes(live@));
        Some(out)
    }
}

/// Whether the first 32 bytes of `b` are `tag`. Every byte is compared,
/// whatever the earlier ones held, so the time taken does not tell where a
/// forged tag first differs.
fn tag_matches(tag: &[u8; 32], b: &Vec<u8>) -> (r: bool)
    requires
        b@.len() >= 32,
    ensures
        r == (b@.subrange(0, 32) == tag@),
{
    proof {
        vstd::array::array_len_matches_n(tag);
    }
    let mut same = true;
    let mut i: usize = 0;
    while i < 32
        invariant
            i <= 32,
            b@.len() >= 32,
            tag@.len() == 32,
            same == forall|j: int| 0 <= j < i ==> b@[j] == tag@[j],
        decreases 32 - i,
    {
        let equal = b[i] == tag[i];
        same = same && equal;
        i += 1;
    }
    if same {
        assert(b@.subrange(0, 32) =~= tag@);
    } else {
        let ghost k = choose|j: int| 0 <= j < 32 && b@[j] != tag@[j];
        assert(b@.subrange(0, 32)[k] != tag@[k]);
    }
    same
}

} // verus!
