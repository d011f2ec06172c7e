//! Upstream claims and the context that attribute templates render against.
use vstd::prelude::*;

verus! {

/// One claim: a name and its value as text.
#[derive(Debug, Clone, PartialEq, Eq)]
pub struct Claim {
    pub name: String,
    pub value: String,
}

/// An ordered bag of claims from one source.
#[derive(Debug, Clone, PartialEq, Eq)]
pub struct Claims {
    pub entries: Vec<Claim>,
}

impl View for Claims {
    type V = Seq<(Seq<char>, Seq<char>)>;

    open spec fn view(&self) -> Seq<(Seq<char>, Seq<char>)> {
        self.entries@.map_values(|c: Claim| (c.name@, c.value@))
    }
}

/// Whether some claim of `s` is called `name`.
pub open spec fn has_claim(s: Seq<(Seq<char>, Seq<char>)>, name: Seq<char>) -> bool {
    exists|i: int| 0 <= i < s.len() && #[trigger] s[i].0 == name
}

/// The claims of `first`, followed by those of `second` whose name `first`
/// does not carry: an earlier source is never overridden by a later one.
pub open spec fn merge_claims(
    first: Seq<(Seq<char>, Seq<char>)>,
    second: Seq<(Seq<char>, Seq<char>)>,
) -> Seq<(Seq<char>, Seq<char>)>
    decreases second.len(),
{
    if second.len() == 0 {
        first
    } else {
        let rest = merge_claims(first, second.drop_last());
        if has_claim(first, second.last().0) {
            rest
        } else {
            rest.push(second.last())
        }
    }
}

/// The optional view of an optional bag of claims.
pub open spec fn opt_view(c: Option<Claims>) -> Option<Seq<(Seq<char>, Seq<char>)>> {
    match c {
        Some(c) => Some(c@),
        None => None,
    }
}

/// The `user` variable: the ID token's claims, completed by those of the
/// userinfo response; absent when neither source is.
pub open spec fn spec_user_claims(id_token: Option<Claims>, userinfo: Option<Claims>) -> Option<
    Seq<(Seq<char>, Seq<char>)>,
> {
    match (id_token, userinfo) {
        (None, None) => None,
        (Some(a), None) => Some(a@),
        (None, Some(b)) => Some(b@),
        (Some(a), Some(b)) => Some(merge_claims(a@, b@)),
    }
}

impl Claims {
    /// An empty bag.
    pub fn new() -> (r: Claims)
        ensures
            r@ == Seq::<(Seq<char>, Seq<char>)>::empty(),
    {
        Claims { entries: Vec::new() }
    }

    /// Appends a claim.
    pub fn push(&mut self, name: String, value: String)
        ensures
            final(self)@ == old(self)@.push((name@, value@)),
    {
        self.entries.push(Claim { name, value });
        assert(final(self)@ =~= old(self)@.push((name@, value@)));
    }

    /// Whether a claim is called `name`.
    pub fn contains(&self, name: &String) -> (r: bool)
        ensures
            r == has_claim(self@, name@),
    {
        let mut i: usize = 0;
        while i < self.entries.len()
            invariant
                i <= self.entries.len(),
                forall|j: int| 0 <= j < i ==> #[trigger] self@[j].0 != name@,
            decreases self.entries.len() - i,
        {
            if self.entries[i].name == *name {
                assert(self@[i as int].0 == name@);
                return true;
            }
            i += 1;
        }
        false
    }

    /// A copy of the bag.
    pub fn duplicate(&self) -> (r: Claims)
        ensures
            r@ == self@,
    {
        let mut out = Claims::new();
        let mut i: usize = 0;
        while i < self.entries.len()
            invariant
                i <= self.entries.len(),
                out@ == self@.subrange(0, i as int),
            decreases self.entries.len() - i,
        {
            out.push(self.entries[i].name.clone(), self.entries[i].value.clone());
            assert(self@.subrange(0, i + 1) =~= self@.subrange(0, i as int).push(self@[i as int]));
            i += 1;
        }
        assert(self@.subrange(0, self@.len() as int) =~= self@);
        out
    }

    /// The claims of `self` completed by those of `later` that `self` lacks.
    pub fn merged_with(&self, later: &Claims) -> (r: Claims)
        ensures
            r@ == merge_claims(self@, later@),
    {
        let mut out = self.duplicate();
        let mut i: usize = 0;
        while i < later.entries.len()
            invariant
                i <= later.entries.len(),
                out@ == merge_claims(self@, later@.subrange(0, i as int)),
            decreases later.entries.len() - i,
        {
            let ghost prefix = later@.subrange(0, i + 1);
            assert(prefix.drop_last() =~= later@.subrange(0, i as int));
            if !self.contains(&later.entries[i].name) {
                out.push(later.entries[i].name.clone(), later.entries[i].value.clone());
            }
            i += 1;
        }
        assert(later@.subrange(0, later@.len() as int) =~= later@);
        out
    }
}

/// The variables that an attribute template sees.
#[derive(Debug, Clone, PartialEq, Eq)]
pub struct ClaimsContext {
    pub user: Option<Claims>,
    pub id_token_claims: Option<Claims>,
    pub extra_callback_parameters: Option<Claims>,
    pub userinfo_claims: Option<Claims>,
}

/// Collects the sources of claims, then builds the template context once.
#[derive(Debug, Clone, PartialEq, Eq)]
pub struct AttributeMappingContext {
    pub id_token_claims: Option<Claims>,
    pub extra_callback_parameters: Option<Claims>,
    pub userinfo_claims: Option<Claims>,
}

impl AttributeMappingContext {
    /// A context with no source.
    pub fn new() -> (r: AttributeMappingContext)
        ensures
            r.id_token_claims is None,
            r.extra_callback_parameters is None,
            r.userinfo_claims is None,
    {
        AttributeMappingContext {
            id_token_claims: None,
            extra_callback_parameters: None,
            userinfo_claims: None,
        }
    }

    /// Supplies the claims of the ID token.
    pub fn with_id_token_claims(self, claims: Claims) -> (r: AttributeMappingContext)
        ensures
            r == (AttributeMappingContext { id_token_claims: Some(claims), ..self }),
    {
        AttributeMappingContext { id_token_claims: Some(claims), ..self }
    }

    /// Supplies the extra parameters of the callback.
    pub fn with_extra_callback_parameters(self, claims: Claims) -> (r: AttributeMappingContext)
        ensures
            r == (AttributeMappingContext { extra_callback_parameters: Some(claims), ..self }),
    {
        AttributeMappingContext { extra_callback_parameters: Some(claims), ..self }
    }

    /// Supplies the claims of the userinfo response.
    pub fn with_userinfo_claims(self, claims: Claims) -> (r: AttributeMappingContext)
        ensures
            r == (AttributeMappingContext { userinfo_claims: Some(claims), ..self }),
    {
        AttributeMappingContext { userinfo_claims: Some(claims), ..self }
    }

    /// Builds the context: every source under its own name, and `user`, the
    /// ID token's claims completed by the userinfo ones.
    pub fn build(self) -> (r: ClaimsContext)
        ensures
            opt_view(r.user) == spec_user_claims(self.id_token_claims, self.userinfo_claims),
            r.id_token_claims == self.id_token_claims,
            r.extra_callback_parameters == self.extra_callback_parameters,
            r.userinfo_claims == self.userinfo_claims,
    {
        let user = match (&self.id_token_claims, &self.userinfo_claims) {
            (None, None) => None,
            (Some(a), None) => Some(a.duplicate()),
            (None, Some(b)) => Some(b.duplicate()),
            (Some(a), Some(b)) => Some(a.merged_with(b)),
        };
        ClaimsContext {
            user,
            id_token_claims: self.id_token_claims,
            extra_callback_parameters: self.extra_callback_parameters,
            userinfo_claims: self.userinfo_claims,
        }
    }
}

} // verus!
