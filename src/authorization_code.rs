//! Single-use OAuth2 authorization codes bound to local OAuth2 sessions.
//!
//! Rows carry serial identifiers handed out by the store. A code is consumed
//! by deleting its row, which succeeds only when exactly one row goes.
use vstd::prelude::*;

use crate::repository::first_match;

verus! {

/// How a PKCE challenge was derived from its verifier.
#[derive(Debug, Clone, Copy, PartialEq, Eq)]
pub enum CodeChallengeMethod {
    Plain,
    S256,
}

/// The number stored for a challenge method.
pub open spec fn method_number(m: CodeChallengeMethod) -> i16 {
    match m {
        CodeChallengeMethod::Plain => 0,
        CodeChallengeMethod::S256 => 1,
    }
}

/// A PKCE challenge sent with an authorization request.
#[derive(Debug, Clone, PartialEq, Eq)]
pub struct PkceRequest {
    pub code_challenge_method: CodeChallengeMethod,
    pub code_challenge: String,
}

/// A local OAuth2 authorization session.
#[derive(Debug, Clone, PartialEq, Eq)]
pub struct OAuth2Session {
    pub id: i64,
    pub client_id: String,
    pub redirect_uri: String,
    pub scope: String,
    pub nonce: Option<String>,
}

/// An issued authorization code.
#[derive(Debug, Clone, PartialEq, Eq)]
pub struct OAuth2Code {
    pub id: i64,
    pub oauth2_session_id: i64,
    pub code: String,
    pub code_challenge: Option<String>,
    pub code_challenge_method: Option<i16>,
}

impl OAuth2Code {
    /// A copy of the code.
    pub fn duplicate(&self) -> (r: OAuth2Code)
        ensures
            r == *self,
    {
        OAuth2Code {
            id: self.id,
            oauth2_session_id: self.oauth2_session_id,
            code: self.code.clone(),
            code_challenge: self.code_challenge.clone(),
            code_challenge_method: self.code_challenge_method,
        }
    }
}

/// A code together with what its session says of the grant.
#[derive(Debug, Clone, PartialEq, Eq)]
pub struct OAuth2CodeLookup {
    pub id: i64,
    pub oauth2_session_id: i64,
    pub client_id: String,
    pub redirect_uri: String,
    pub scope: String,
    pub nonce: Option<String>,
}

/// Why a lookup found no code.
#[derive(Debug, Clone, Copy, PartialEq, Eq)]
pub struct CodeLookupError {
    pub row_not_found: bool,
}

impl CodeLookupError {
    /// Whether the lookup failed because no such code exists.
    pub fn not_found(&self) -> (r: bool)
        ensures
            r == self.row_not_found,
    {
        self.row_not_found
    }
}

/// Why a code could not be issued or consumed.
#[derive(Debug, Clone, Copy, PartialEq, Eq)]
pub enum CodeStoreError {
    /// The code is already issued.
    DuplicateCode,
    /// The OAuth2 session does not exist.
    UnknownSession,
    /// No identifier is left.
    IdsExhausted,
    /// No row was affected: the code was consumed already, or never issued.
    NoRowAffected,
}

/// The sessions and codes.
#[derive(Debug, Clone, PartialEq, Eq)]
pub struct CodeStore {
    pub sessions: Vec<OAuth2Session>,
    pub codes: Vec<OAuth2Code>,
    pub next_id: i64,
}

/// What the store holds.
pub ghost struct CodeStoreView {
    pub sessions: Seq<OAuth2Session>,
    pub codes: Seq<OAuth2Code>,
    pub next_id: i64,
}

impl View for CodeStore {
    type V = CodeStoreView;

    open spec fn view(&self) -> CodeStoreView {
        CodeStoreView { sessions: self.sessions@, codes: self.codes@, next_id: self.next_id }
    }
}

/// Every code has an identifier below the next one, and no two share one.
pub open spec fn codes_wf(v: CodeStoreView) -> bool {
    &&& v.next_id >= 1
    &&& forall|i: int| 0 <= i < v.codes.len() ==> 1 <= (#[trigger] v.codes[i]).id < v.next_id
    &&& forall|i: int, j: int|
        0 <= i < v.codes.len() && 0 <= j < v.codes.len() && i != j ==> (#[trigger] v.codes[i]).id
            != (#[trigger] v.codes[j]).id
}

/// Whether a code with text `code` is issued.
pub open spec fn code_issued(v: CodeStoreView, code: Seq<char>) -> bool {
    exists|i: int| 0 <= i < v.codes.len() && (#[trigger] v.codes[i]).code@ == code
}

/// Whether a session with identifier `id` exists.
pub open spec fn session_exists(v: CodeStoreView, id: i64) -> bool {
    exists|i: int| 0 <= i < v.sessions.len() && (#[trigger] v.sessions[i]).id == id
}

/// Whether a code with identifier `id` is issued.
pub open spec fn code_id_issued(v: CodeStoreView, id: i64) -> bool {
    exists|i: int| 0 <= i < v.codes.len() && (#[trigger] v.codes[i]).id == id
}

/// `l` joins row `i` of the codes, whose text is `code`, with row `j` of
/// the sessions, its session.
pub open spec fn lookup_row(v: CodeStoreView, code: Seq<char>, i: int, j: int, l: OAuth2CodeLookup) -> bool {
    &&& 0 <= i < v.codes.len()
    &&& 0 <= j < v.sessions.len()
    &&& v.codes[i].code@ == code
    &&& v.sessions[j].id == v.codes[i].oauth2_session_id
    &&& l.id == v.codes[i].id
    &&& l.oauth2_session_id == v.sessions[j].id
    &&& l.client_id == v.sessions[j].client_id
    &&& l.redirect_uri == v.sessions[j].redirect_uri
    &&& l.scope == v.sessions[j].scope
    &&& l.nonce == v.sessions[j].nonce
}

/// The position of the row with identifier `id`.
pub open spec fn code_index(v: CodeStoreView, id: i64) -> int {
    choose|i: int| 0 <= i < v.codes.len() && (#[trigger] v.codes[i]).id == id
}

/// The store after consuming the code with identifier `id`: its row is
/// deleted. `None` when no row has that identifier.
pub open spec fn consume_code_step(v: CodeStoreView, id: i64) -> Option<CodeStoreView> {
    if code_id_issued(v, id) {
        Some(CodeStoreView { codes: v.codes.remove(code_index(v, id)), ..v })
    } else {
        None
    }
}

/// The row an issued code gets.
pub open spec fn issued_code(
    id: i64,
    session: i64,
    code: Seq<char>,
    challenge: Option<PkceRequest>,
    r: OAuth2Code,
) -> bool {
    &&& r.id == id
    &&& r.oauth2_session_id == session
    &&& r.code@ == code
    &&& match challenge {
        Some(c) => r.code_challenge matches Some(s) && s@ == c.code_challenge@
            && r.code_challenge_method == Some(method_number(c.code_challenge_method)),
        None => r.code_challenge is None && r.code_challenge_method is None,
    }
}

/// A code just issued is consumed by the first attempt, and every later
/// attempt on its identifier fails.
pub proof fn lemma_code_consumed_once(v: CodeStoreView, id: i64)
    requires
        codes_wf(v),
        code_id_issued(v, id),
    ensures
        consume_code_step(v, id) is Some,
        codes_wf(consume_code_step(v, id)->0),
        consume_code_step(consume_code_step(v, id)->0, id) is None,
{
    let i = code_index(v, id);
    let w = consume_code_step(v, id)->0;
    lemma_remove_keeps_wf(v, i);
    assert forall|k: int| 0 <= k < w.codes.len() implies (#[trigger] w.codes[k]).id != id by {
        if k < i {
            assert(w.codes[k] == v.codes[k]);
        } else {
            assert(w.codes[k] == v.codes[k + 1]);
        }
    }
}

/// Any code just issued by `add_code` is consumed by the first attempt on
/// its identifier, and every later attempt fails.
pub proof fn lemma_issued_code_consumed_once(v: CodeStoreView, c: OAuth2Code)
    requires
        codes_wf(v),
        v.next_id < i64::MAX,
        c.id == v.next_id,
    ensures
        ({
            let w = CodeStoreView { codes: v.codes.push(c), next_id: (v.next_id + 1) as i64, ..v };
            &&& codes_wf(w)
            &&& consume_code_step(w, c.id) is Some
            &&& consume_code_step(consume_code_step(w, c.id)->0, c.id) is None
        }),
{
    let w = CodeStoreView { codes: v.codes.push(c), next_id: (v.next_id + 1) as i64, ..v };
    assert forall|i: int, j: int|
        0 <= i < w.codes.len() && 0 <= j < w.codes.len() && i != j implies (#[trigger] w.codes[i]).id
            != (#[trigger] w.codes[j]).id by {
        if i < v.codes.len() && j < v.codes.len() {
            assert(w.codes[i] == v.codes[i] && w.codes[j] == v.codes[j]);
        } else if i < v.codes.len() {
            assert(w.codes[i] == v.codes[i]);
        } else {
            assert(w.codes[j] == v.codes[j]);
        }
    }
    assert(w.codes[v.codes.len() as int] == c);
    lemma_code_consumed_once(w, c.id);
}

/// Deleting a row keeps identifiers in range and distinct.
proof fn lemma_remove_keeps_wf(v: CodeStoreView, i: int)
    requires
        codes_wf(v),
        0 <= i < v.codes.len(),
    ensures
        codes_wf(CodeStoreView { codes: v.codes.remove(i), ..v }),
{
    let f = v.codes.remove(i);
    assert forall|a: int| 0 <= a < f.len() implies f[a] == v.codes[if a < i { a } else { a + 1 }] by {}
    assert forall|a: int| 0 <= a < f.len() implies 1 <= (#[trigger] f[a]).id < v.next_id by {
        assert(f[a] == v.codes[if a < i { a } else { a + 1 }]);
    }
    assert forall|a: int, b: int|
        0 <= a < f.len() && 0 <= b < f.len() && a != b implies (#[trigger] f[a]).id != (#[trigger] f[b]).id by {
        assert(f[a] == v.codes[if a < i { a } else { a + 1 }]);
        assert(f[b] == v.codes[if b < i { b } else { b + 1 }]);
    }
}

impl CodeStore {
    /// An empty store.
    pub fn new() -> (r: CodeStore)
        ensures
            codes_wf(r@),
            r@.sessions.len() == 0,
            r@.codes.len() == 0,
    {
        CodeStore { sessions: Vec::new(), codes: Vec::new(), next_id: 1 }
    }

    /// Whether a code with text `code` is issued.
    fn has_code(&self, code: &String) -> (r: bool)
        ensures
            r == code_issued(self@, code@),
    {
        let mut i: usize = 0;
        while i < self.codes.len()
            invariant
                i <= self.codes@.len(),
                forall|j: int| 0 <= j < i ==> (#[trigger] self.codes@[j]).code@ != code@,
            decreases self.codes@.len() - i,
        {
            if self.codes[i].code == *code {
                return true;
            }
            i += 1;
        }
        false
    }

    /// The first session with identifier `id`.
    fn find_session(&self, id: i64) -> (r: Option<usize>)
        ensures
            first_match(self.sessions@, |s: OAuth2Session| s.id == id, r),
            r is Some <==> session_exists(self@, id),
    {
        let mut i: usize = 0;
        while i < self.sessions.len()
            invariant
                i <= self.sessions@.len(),
                forall|j: int| 0 <= j < i ==> (#[trigger] self.sessions@[j]).id != id,
            decreases self.sessions@.len() - i,
        {
            if self.sessions[i].id == id {
                return Some(i);
            }
            i += 1;
        }
        None
    }
}

/// Issues `code` for an OAuth2 session, with an optional PKCE challenge.
///
/// Fails when the session does not exist, when the code is already
/// issued (the caller draws a fresh one), or when identifiers run out.
pub fn add_code(
    store: &mut CodeStore,
    oauth2_session_id: i64,
    code: &str,
    code_challenge: &Option<PkceRequest>,
) -> (r: Result<OAuth2Code, CodeStoreError>)
    requires
        codes_wf(old(store)@),
    ensures
        codes_wf(final(store)@),
        !session_exists(old(store)@, oauth2_session_id) ==> r == Err::<OAuth2Code, CodeStoreError>(
            CodeStoreError::UnknownSession,
        ),
        session_exists(old(store)@, oauth2_session_id) && code_issued(old(store)@, code@) ==> r
            == Err::<OAuth2Code, CodeStoreError>(CodeStoreError::DuplicateCode),
        session_exists(old(store)@, oauth2_session_id) && !code_issued(old(store)@, code@)
            && old(store).next_id == i64::MAX ==> r == Err::<OAuth2Code, CodeStoreError>(
            CodeStoreError::IdsExhausted,
        ),
        r is Err ==> final(store)@ == old(store)@,
        match r {
            Ok(c) => issued_code(old(store).next_id, oauth2_session_id, code@, *code_challenge, c)
                && final(store)@ == (CodeStoreView {
                codes: old(store)@.codes.push(c),
                next_id: (old(store).next_id + 1) as i64,
                ..old(store)@
            }),
            Err(_) => true,
        },
{
    let code: String = code.to_owned();
    if store.find_session(oauth2_session_id).is_none() {
        return Err(CodeStoreError::UnknownSession);
    }
    if store.has_code(&code) {
        return Err(CodeStoreError::DuplicateCode);
    }
    if store.next_id == i64::MAX {
        return Err(CodeStoreError::IdsExhausted);
    }
    let (challenge, method) = match code_challenge {
        Some(c) => {
            let m: i16 = match c.code_challenge_method {
                CodeChallengeMethod::Plain => 0,
                CodeChallengeMethod::S256 => 1,
            };
            (Some(c.code_challenge.clone()), Some(m))
        },
        None => (None, None),
    };
    let row = OAuth2Code {
        id: store.next_id,
        oauth2_session_id,
        code,
        code_challenge: challenge,
        code_challenge_method: method,
    };
    store.codes.push(row.duplicate());
    store.next_id = store.next_id + 1;
    proof {
        let v = final(store)@;
        assert forall|i: int, j: int|
            0 <= i < v.codes.len() && 0 <= j < v.codes.len() && i != j implies (#[trigger] v.codes[i]).id
                != (#[trigger] v.codes[j]).id by {
            if i < v.codes.len() - 1 && j < v.codes.len() - 1 {
                assert(v.codes[i] == old(store)@.codes[i] && v.codes[j] == old(store)@.codes[j]);
            } else if i < v.codes.len() - 1 {
                assert(v.codes[i] == old(store)@.codes[i]);
            } else {
                assert(v.codes[j] == old(store)@.codes[j]);
            }
        }
    }
    Ok(row)
}

/// Resolves `code` together with its session's client, redirect address,
/// scope and nonce; fails with a not-found error when either is missing.
pub fn lookup_code(store: &CodeStore, code: &str) -> (r: Result<OAuth2CodeLookup, CodeLookupError>)
    ensures
        match r {
            Ok(l) => exists|i: int, j: int| #[trigger] lookup_row(store@, code@, i, j, l),
            Err(e) => e.row_not_found && forall|i: int|
                0 <= i < store@.codes.len() && #[trigger] store@.codes[i].code@ == code@
                    ==> !session_exists(store@, store@.codes[i].oauth2_session_id),
        },
{
    let wanted: String = code.to_owned();
    assert(wanted@ == code@);
    let mut i: usize = 0;
    while i < store.codes.len()
        invariant
            i <= store.codes@.len(),
            forall|k: int|
                0 <= k < i && #[trigger] store@.codes[k].code@ == code@ ==> !session_exists(
                    store@,
                    store@.codes[k].oauth2_session_id,
                ),
            wanted@ == code@,
        decreases store.codes@.len() - i,
    {
        if store.codes[i].code == wanted {
            if let Some(j) = store.find_session(store.codes[i].oauth2_session_id) {
                let s = &store.sessions[j];
                let nonce = match &s.nonce {
                    Some(n) => Some(n.clone()),
                    None => None,
                };
                let l = OAuth2CodeLookup {
                    id: store.codes[i].id,
                    oauth2_session_id: s.id,
                    client_id: s.client_id.clone(),
                    redirect_uri: s.redirect_uri.clone(),
                    scope: s.scope.clone(),
                    nonce,
                };
                assert(store@.codes[i as int].code@ == code@);
                assert(store@.sessions[j as int].id == store@.codes[i as int].oauth2_session_id);
                assert(l.client_id == store@.sessions[j as int].client_id);
                assert(l.redirect_uri == store@.sessions[j as int].redirect_uri);
                assert(l.scope == store@.sessions[j as int].scope);
                assert(l.nonce == store@.sessions[j as int].nonce);
                assert(l.id == store@.codes[i as int].id);
                assert(lookup_row(store@, code@, i as int, j as int, l));
                return Ok(l);
            }
        }
        i += 1;
    }
    Err(CodeLookupError { row_not_found: true })
}

/// Consumes the code with identifier `code_id` by deleting its row; fails,
/// changing nothing, when no row is affected.
pub fn consume_code(store: &mut CodeStore, code_id: i64) -> (r: Result<(), CodeStoreError>)
    requires
        codes_wf(old(store)@),
    ensures
        codes_wf(final(store)@),
        match consume_code_step(old(store)@, code_id) {
            Some(v) => r is Ok && final(store)@ == v,
            None => r == Err::<(), CodeStoreError>(CodeStoreError::NoRowAffected) && final(store)@
                == old(store)@,
        },
{
    let mut i: usize = 0;
    while i < store.codes.len()
        invariant
            i <= store.codes@.len(),
            store@ == old(store)@,
            codes_wf(old(store)@),
            forall|k: int| 0 <= k < i ==> (#[trigger] store@.codes[k]).id != code_id,
        decreases store.codes@.len() - i,
    {
        if store.codes[i].id == code_id {
            let ghost before = store@;
            store.codes.remove(i);
            proof {
                let k = code_index(before, code_id);
                if k != i {
                    assert(before.codes[k].id == before.codes[i as int].id);
                }
                lemma_remove_keeps_wf(before, i as int);
            }
            return Ok(());
        }
        i += 1;
    }
    Err(CodeStoreError::NoRowAffected)
}

} // verus!
