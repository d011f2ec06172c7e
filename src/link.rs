//! Reconciling an upstream identity with local accounts.
//!
//! A federated login comes back on a link: the binding of an upstream subject
//! to a local user, unset until decided. What happens depends on whether the
//! browser holds an active session, and whether the link is bound:
//! re-authenticate, report a mismatch, suggest linking, log in as the bound
//! user, or offer registration.
//!
//! Every request re-checks that the cookie's upstream session belongs to the
//! link and is not consumed before anything is written.
use vstd::prelude::*;

use crate::claims::{opt_view, spec_user_claims, AttributeMappingContext, ClaimsContext};
use crate::cookie::{EntryView, PostAuthAction, UpstreamSessionsCookie};
use crate::error::RouteError;
use crate::ids::{mint, spec_mint};
use crate::mapping::{
    render_attribute_template, spec_template_or, template_output, ImportAction, ImportPreference,
};
use crate::model::{BrowserSession, UpstreamOAuthLink, UpstreamOAuthProvider, UpstreamOAuthSession, User};
use crate::policy::{PolicyDecision, RegisterInput, RegistrationMethod, Requester, Violation};
use crate::repository::{
    consume_step, find_first, has_username, lemma_find_first, lemma_find_first_congruent,
    lemma_find_first_found, new_browser_session, spec_load_session,
    valid_user, with_authentication, with_link_bound, ProvisionUserJob, Repository, RepositoryView,
    TermsAcceptance,
};
use crate::model::UserEmail;

verus! {

/// The localpart template used when the provider sets none.
pub const DEFAULT_LOCALPART_TEMPLATE: &'static str = "{{ user.preferred_username }}";

/// The display name template used when the provider sets none.
pub const DEFAULT_DISPLAYNAME_TEMPLATE: &'static str = "{{ user.name }}";

/// The email template used when the provider sets none.
pub const DEFAULT_EMAIL_TEMPLATE: &'static str = "{{ user.email }}";

/// A field of the registration form.
#[derive(Debug, Clone, Copy, PartialEq, Eq)]
pub enum RegisterField {
    Username,
    AcceptTerms,
}

/// What is wrong with a field.
#[derive(Debug, Clone, PartialEq, Eq)]
pub enum FieldError {
    Required,
    Exists,
    Policy { code: Option<String>, message: String },
}

/// What is wrong with the form as a whole.
#[derive(Debug, Clone, PartialEq, Eq)]
pub enum FormError {
    Policy { code: Option<String>, message: String },
}

/// The errors of a submitted form.
#[derive(Debug, Clone, PartialEq, Eq)]
pub struct FormState {
    pub field_errors: Vec<(RegisterField, FieldError)>,
    pub form_errors: Vec<FormError>,
}

impl FormState {
    /// A form with no error.
    pub fn new() -> (r: FormState)
        ensures
            r.field_errors@.len() == 0,
            r.form_errors@.len() == 0,
    {
        FormState { field_errors: Vec::new(), form_errors: Vec::new() }
    }

    /// Records an error on a field.
    pub fn add_error_on_field(&mut self, field: RegisterField, error: FieldError)
        ensures
            final(self).field_errors@ == old(self).field_errors@.push((field, error)),
            final(self).form_errors@ == old(self).form_errors@,
    {
        self.field_errors.push((field, error));
    }

    /// Records an error on the form.
    pub fn add_error_on_form(&mut self, error: FormError)
        ensures
            final(self).form_errors@ == old(self).form_errors@.push(error),
            final(self).field_errors@ == old(self).field_errors@,
    {
        self.form_errors.push(error);
    }

    /// Whether the form has no error.
    pub fn is_valid(&self) -> (r: bool)
        ensures
            r == (self.field_errors@.len() == 0 && self.form_errors@.len() == 0),
    {
        self.field_errors.len() == 0 && self.form_errors.len() == 0
    }
}

/// What the registration page shows.
#[derive(Debug, Clone, PartialEq, Eq)]
pub struct UpstreamRegister {
    pub link_id: u128,
    pub provider_id: u128,
    pub imported_localpart: Option<String>,
    pub force_localpart: bool,
    pub imported_display_name: Option<String>,
    pub force_display_name: bool,
    pub imported_email: Option<String>,
    pub force_email: bool,
    pub form_state: FormState,
}

/// A localpart rendered from the claims, waiting for the homeserver's and
/// the policy's answers before it is offered.
#[derive(Debug, Clone, PartialEq, Eq)]
pub struct LocalpartCheck {
    pub localpart: String,
    pub forced: bool,
    pub context: UpstreamRegister,
}

/// Why a proposed localpart stops the flow.
#[derive(Debug, Clone, Copy, PartialEq, Eq)]
pub enum ErrorCode {
    /// The localpart is taken locally or on the homeserver.
    UserExists,
    /// A forced localpart is denied by the policy.
    PolicyDenied,
}

/// An error page about the localpart the provider returned.
#[derive(Debug, Clone, PartialEq, Eq)]
pub struct ErrorPage {
    pub code: ErrorCode,
    pub localpart: String,
    pub violations: Vec<Violation>,
}

/// What a request on a link leads to.
#[derive(Debug, Clone, PartialEq, Eq)]
pub enum GetOutcome {
    /// The flow completed; save `cookie` (an empty one removes it) and go on.
    Redirect {
        post_auth_action: Option<PostAuthAction>,
        browser_session_id: u128,
        cookie: UpstreamSessionsCookie,
    },
    /// The link is bound to another user than the logged-in one.
    ExistingLinkMismatch { user: User, session: BrowserSession },
    /// The link is unbound and a user is logged in: offer to link.
    SuggestLink { link: UpstreamOAuthLink, session: BrowserSession },
    /// Offer to register.
    Register(UpstreamRegister),
    /// A localpart was rendered and is free locally: ask the homeserver
    /// whether it is free there, then call `localpart_availability`.
    CheckLocalpart(LocalpartCheck),
    /// The localpart is free: ask the policy about registering it, then call
    /// `finish_localpart_check`.
    CheckPolicy(LocalpartCheck),
    /// The proposed localpart stops the flow.
    Error(ErrorPage),
}

/// Why the checks of a request on a link fail.
pub ghost enum GuardFailure {
    MissingCookie,
    LinkNotFound,
    SessionNotFound,
    SessionConsumed,
}

/// The checks every request on a link passes: the cookie tracks the link,
/// the link exists, its upstream session exists, belongs to it and is not
/// consumed. On success: the link's position, the session's, and the
/// post-authentication action.
pub open spec fn spec_guard(v: RepositoryView, c: Seq<EntryView>, link_id: u128) -> Result<
    (int, int, Option<PostAuthAction>),
    GuardFailure,
> {
    match find_first(c, |e: EntryView| e.link == Some(link_id)) {
        None => Err(GuardFailure::MissingCookie),
        Some(ci) => match find_first(v.links, |l: UpstreamOAuthLink| l.id == link_id) {
            None => Err(GuardFailure::LinkNotFound),
            Some(li) => match find_first(
                v.upstream_sessions,
                |s: UpstreamOAuthSession| s.id == c[ci].session,
            ) {
                None => Err(GuardFailure::SessionNotFound),
                Some(si) => if v.upstream_sessions[si].link_id != Some(link_id) {
                    Err(GuardFailure::SessionNotFound)
                } else if v.upstream_sessions[si].consumed_at is Some {
                    Err(GuardFailure::SessionConsumed)
                } else {
                    Ok((li, si, c[ci].post_auth_action))
                },
            },
        },
    }
}

/// The cookie `c` without its entry for `link_id`.
pub open spec fn without_link(c: Seq<EntryView>, link_id: u128) -> Seq<EntryView> {
    c.remove(find_first(c, |e: EntryView| e.link == Some(link_id))->0)
}

/// `e` is the error of failure `f`. A consumed session hands back the
/// cookie without the link's stale entry, so that it is saved back.
pub open spec fn guard_error(e: RouteError, f: GuardFailure, c: Seq<EntryView>, link_id: u128) -> bool {
    match f {
        GuardFailure::MissingCookie => e == RouteError::MissingCookie,
        GuardFailure::LinkNotFound => e == RouteError::LinkNotFound,
        GuardFailure::SessionNotFound => e == RouteError::SessionNotFound,
        GuardFailure::SessionConsumed => e matches RouteError::SessionConsumed { cookie }
            && cookie@ == without_link(c, link_id),
    }
}

/// Runs the checks of `spec_guard`.
pub fn guard(repo: &Repository, cookie: &UpstreamSessionsCookie, link_id: u128) -> (r: Result<
    (usize, usize, Option<PostAuthAction>),
    RouteError,
>)
    ensures
        match spec_guard(repo@, cookie@, link_id) {
            Ok((li, si, a)) => (r matches Ok((l, s, b)) && l as int == li && s as int == si && b == a
                && 0 <= li < repo@.links.len() && 0 <= si < repo@.upstream_sessions.len()),
            Err(f) => (r matches Err(e) && guard_error(e, f, cookie@, link_id)),
        },
{
    let (session_id, post_auth_action) = match cookie.lookup_link(link_id) {
        Ok(found) => found,
        Err(_) => {
            return Err(RouteError::MissingCookie);
        },
    };
    let li = repo.find_link(link_id);
    proof {
        lemma_find_first(repo.links@, |l: UpstreamOAuthLink| l.id == link_id, li);
    }
    let li = match li {
        Some(i) => i,
        None => {
            return Err(RouteError::LinkNotFound);
        },
    };
    let si = repo.find_upstream_session(session_id);
    proof {
        lemma_find_first(repo.upstream_sessions@, |s: UpstreamOAuthSession| s.id == session_id, si);
    }
    let si = match si {
        Some(i) => i,
        None => {
            return Err(RouteError::SessionNotFound);
        },
    };
    if repo.upstream_sessions[si].link_id != Some(link_id) {
        return Err(RouteError::SessionNotFound);
    }
    if repo.upstream_sessions[si].is_consumed() {
        return match cookie.duplicate().consume_link(link_id) {
            Ok(kept) => Err(RouteError::SessionConsumed { cookie: kept }),
            Err(_) => Err(RouteError::MissingCookie),
        };
    }
    Ok((li, si, post_auth_action))
}

/// The branch of the flow, from the logged-in session and the link's user.
pub ghost enum Branch {
    /// Logged in as the link's user.
    Reauthenticate,
    /// Logged in as another user than the link's.
    Mismatch,
    /// Logged in; the link is unbound.
    Suggest,
    /// Not logged in; the link is bound.
    Login,
    /// Not logged in; the link is unbound.
    Register,
}

/// The branch of the flow.
pub open spec fn branch(session: Option<BrowserSession>, link_user: Option<u128>) -> Branch {
    match (session, link_user) {
        (Some(s), Some(u)) => if s.user.id == u {
            Branch::Reauthenticate
        } else {
            Branch::Mismatch
        },
        (Some(_), None) => Branch::Suggest,
        (None, Some(_)) => Branch::Login,
        (None, None) => Branch::Register,
    }
}

/// A bound link only ever takes the bound branches: whoever visits it, it
/// is re-authentication, a mismatch, or a login, never a link suggestion or
/// a registration.
pub proof fn lemma_bound_link_branches(session: Option<BrowserSession>, link: UpstreamOAuthLink)
    requires
        link.user_id is Some,
    ensures
        branch(session, link.user_id) is Reauthenticate || branch(session, link.user_id) is Mismatch
            || branch(session, link.user_id) is Login,
{
}

/// A registration binds its link, so every later visit to that link takes a
/// bound branch, and a bound link is only rebound by nothing here: its user
/// stays the registered one.
pub proof fn lemma_registration_binds_link(
    v: RepositoryView,
    w: RepositoryView,
    draft: RegistrationDraft,
    li: int,
    si: int,
    tos_uri: Option<String>,
    now: u64,
    random: u128,
    user_agent: Option<String>,
    session: Option<BrowserSession>,
)
    requires
        0 <= li < v.links.len(),
        registration_writes(v, w, draft, li, si, tos_uri, now, random, user_agent),
    ensures
        w.links[li].user_id == Some(spec_mint(now, random, 0)),
        w.links[li].user_id == Some(w.users.last().id),
        !(branch(session, w.links[li].user_id) is Suggest),
        !(branch(session, w.links[li].user_id) is Register),
{
}

/// What an attribute template yields for an upstream session.
pub ghost enum Attr {
    /// Not imported, or dropped.
    Absent,
    /// The rendered value.
    Value(Seq<char>),
    /// Required, but rendered empty.
    Empty,
    /// Required, but failed to render.
    Failed,
}

/// What `template` renders to against the claims of `s`.
pub open spec fn rendered_for(template: Seq<char>, s: UpstreamOAuthSession) -> Option<Seq<char>> {
    template_output(
        template,
        spec_user_claims(s.id_token_claims, s.userinfo),
        opt_view(s.id_token_claims),
        opt_view(s.extra_callback_parameters),
        opt_view(s.userinfo),
    )
}

/// The attribute `pref` yields for `s` when `import` holds.
pub open spec fn attr(
    pref: ImportPreference,
    default: Seq<char>,
    s: UpstreamOAuthSession,
    import: bool,
) -> Attr {
    if !import {
        Attr::Absent
    } else {
        let required = pref.action == ImportAction::Force;
        match rendered_for(spec_template_or(pref.template, default), s) {
            Some(v) => if v.len() > 0 {
                Attr::Value(v)
            } else if required {
                Attr::Empty
            } else {
                Attr::Absent
            },
            None => if required {
                Attr::Failed
            } else {
                Attr::Absent
            },
        }
    }
}

/// Whether an attribute stops the flow.
pub open spec fn attr_fails(a: Attr) -> bool {
    a is Empty || a is Failed
}

/// `r` is the error a failing attribute raises, naming its template.
pub open spec fn attr_error(e: RouteError, a: Attr, pref: ImportPreference, default: Seq<char>) -> bool {
    let t = spec_template_or(pref.template, default);
    match a {
        Attr::Empty => e matches RouteError::RequiredAttributeEmpty { template } && template@ == t,
        Attr::Failed => e matches RouteError::RequiredAttributeRender { template, .. } && template@
            == t,
        _ => false,
    }
}

/// `r` carries the attribute `a`.
pub open spec fn attr_value(r: Option<String>, a: Attr) -> bool {
    match a {
        Attr::Value(v) => r matches Some(s) && s@ == v,
        _ => r is None,
    }
}

/// The outcome of an attribute as a value or an error.
pub open spec fn attr_result(r: Result<Option<String>, RouteError>, a: Attr, pref: ImportPreference, default: Seq<char>) -> bool {
    match r {
        Ok(v) => !attr_fails(a) && attr_value(v, a),
        Err(e) => attr_fails(a) && attr_error(e, a, pref, default),
    }
}

/// The template context built from an upstream session's claims.
fn claims_context(s: &UpstreamOAuthSession) -> (r: ClaimsContext)
    ensures
        opt_view(r.user) == spec_user_claims(s.id_token_claims, s.userinfo),
        opt_view(r.id_token_claims) == opt_view(s.id_token_claims),
        opt_view(r.extra_callback_parameters) == opt_view(s.extra_callback_parameters),
        opt_view(r.userinfo_claims) == opt_view(s.userinfo),
{
    let mut context = AttributeMappingContext::new();
    if let Some(claims) = &s.id_token_claims {
        context = context.with_id_token_claims(claims.duplicate());
    }
    if let Some(claims) = &s.extra_callback_parameters {
        context = context.with_extra_callback_parameters(claims.duplicate());
    }
    if let Some(claims) = &s.userinfo {
        context = context.with_userinfo_claims(claims.duplicate());
    }
    context.build()
}

/// Renders one attribute when `import` holds.
fn import_attribute(
    pref: &ImportPreference,
    default: &str,
    ctx: &ClaimsContext,
    s: Ghost<UpstreamOAuthSession>,
    import: bool,
) -> (r: Result<Option<String>, RouteError>)
    requires
        opt_view(ctx.user) == spec_user_claims(s@.id_token_claims, s@.userinfo),
        opt_view(ctx.id_token_claims) == opt_view(s@.id_token_claims),
        opt_view(ctx.extra_callback_parameters) == opt_view(s@.extra_callback_parameters),
        opt_view(ctx.userinfo_claims) == opt_view(s@.userinfo),
    ensures
        attr_result(r, attr(*pref, default@, s@, import), *pref, default@),
{
    if !import {
        return Ok(None);
    }
    let template = pref.template_or(default);
    render_attribute_template(template.as_str(), ctx, pref.is_required())
}

/// The registration context with the imported display name and email.
pub open spec fn register_context(
    c: UpstreamRegister,
    link_id: u128,
    provider_id: u128,
    display_name: Attr,
    display_name_forced: bool,
    email: Attr,
    email_forced: bool,
) -> bool {
    &&& c.link_id == link_id
    &&& c.provider_id == provider_id
    &&& c.imported_localpart is None
    &&& !c.force_localpart
    &&& attr_value(c.imported_display_name, display_name)
    &&& c.force_display_name == (display_name is Value && display_name_forced)
    &&& attr_value(c.imported_email, email)
    &&& c.force_email == (email is Value && email_forced)
    &&& c.form_state.field_errors@.len() == 0
    &&& c.form_state.form_errors@.len() == 0
}

/// The position of the provider with identifier `id`.
pub open spec fn provider_pos(v: RepositoryView, id: u128) -> Option<int> {
    find_first(v.providers, |p: UpstreamOAuthProvider| p.id == id)
}

/// What the registration branch of a visit yields: the provider's
/// attributes rendered from the session's claims, display name, then email,
/// then localpart; the first failing one is the error. A rendered localpart
/// is handed out for checking; otherwise the form is offered.
pub open spec fn register_visit(r: Result<GetOutcome, RouteError>, v: RepositoryView, li: int, si: int) -> bool {
    let link = v.links[li];
    let s = v.upstream_sessions[si];
    match provider_pos(v, link.provider_id) {
        None => r == Err::<GetOutcome, RouteError>(RouteError::ProviderNotFound),
        Some(pi) => {
            let imports = v.providers[pi].claims_imports;
            let d = attr(imports.displayname, DEFAULT_DISPLAYNAME_TEMPLATE@, s, imports.displayname.action != ImportAction::Ignore);
            let e = attr(imports.email, DEFAULT_EMAIL_TEMPLATE@, s, imports.email.action != ImportAction::Ignore);
            let l = attr(imports.localpart, DEFAULT_LOCALPART_TEMPLATE@, s, imports.localpart.action != ImportAction::Ignore);
            let forced_d = imports.displayname.action == ImportAction::Force;
            let forced_e = imports.email.action == ImportAction::Force;
            if attr_fails(d) {
                r matches Err(err) && attr_error(err, d, imports.displayname, DEFAULT_DISPLAYNAME_TEMPLATE@)
            } else if attr_fails(e) {
                r matches Err(err) && attr_error(err, e, imports.email, DEFAULT_EMAIL_TEMPLATE@)
            } else if attr_fails(l) {
                r matches Err(err) && attr_error(err, l, imports.localpart, DEFAULT_LOCALPART_TEMPLATE@)
            } else {
                match l {
                    Attr::Value(lp) => if has_username(v.users, lp) {
                        r matches Ok(GetOutcome::Error(page)) && page.code == ErrorCode::UserExists
                            && page.localpart@ == lp && page.violations@.len() == 0
                    } else {
                        r matches Ok(GetOutcome::CheckLocalpart(c)) && c.localpart@ == lp
                            && c.forced == (imports.localpart.action == ImportAction::Force)
                            && register_context(c.context, link.id, v.providers[pi].id, d, forced_d, e, forced_e)
                    },
                    _ => r matches Ok(GetOutcome::Register(c)) && register_context(
                        c,
                        link.id,
                        v.providers[pi].id,
                        d,
                        forced_d,
                        e,
                        forced_e,
                    ),
                }
            }
        },
    }
}

/// Builds the registration offer for an unbound link, with nobody logged in.
fn register_offer(repo: &Repository, li: usize, si: usize) -> (r: Result<GetOutcome, RouteError>)
    requires
        li < repo@.links.len(),
        si < repo@.upstream_sessions.len(),
    ensures
        register_visit(r, repo@, li as int, si as int),
{
    let link = &repo.links[li];
    let session = &repo.upstream_sessions[si];
    let pi = repo.find_provider(link.provider_id);
    proof {
        lemma_find_first(repo.providers@, |p: UpstreamOAuthProvider| p.id == link.provider_id, pi);
    }
    let pi = match pi {
        Some(i) => i,
        None => {
            return Err(RouteError::ProviderNotFound);
        },
    };
    let provider = &repo.providers[pi];
    let imports = &provider.claims_imports;
    let ctx = claims_context(session);
    let ghost s = *session;
    let display_name = import_attribute(
        &imports.displayname,
        DEFAULT_DISPLAYNAME_TEMPLATE,
        &ctx,
        Ghost(s),
        !imports.displayname.ignore(),
    )?;
    let email = import_attribute(
        &imports.email,
        DEFAULT_EMAIL_TEMPLATE,
        &ctx,
        Ghost(s),
        !imports.email.ignore(),
    )?;
    let localpart = import_attribute(
        &imports.localpart,
        DEFAULT_LOCALPART_TEMPLATE,
        &ctx,
        Ghost(s),
        !imports.localpart.ignore(),
    )?;
    let force_display_name = display_name.is_some() && imports.displayname.is_forced();
    let force_email = email.is_some() && imports.email.is_forced();
    let context = UpstreamRegister {
        link_id: link.id,
        provider_id: provider.id,
        imported_localpart: None,
        force_localpart: false,
        imported_display_name: display_name,
        force_display_name,
        imported_email: email,
        force_email,
        form_state: FormState::new(),
    };
    match localpart {
        Some(localpart) => {
            if repo.user_exists(&localpart) {
                return Ok(
                    GetOutcome::Error(
                        ErrorPage { code: ErrorCode::UserExists, localpart, violations: Vec::new() },
                    ),
                );
            }
            Ok(
                GetOutcome::CheckLocalpart(
                    LocalpartCheck { localpart, forced: imports.localpart.is_forced(), context },
                ),
            )
        },
        None => Ok(GetOutcome::Register(context)),
    }
}

/// What a visit to a link does, once its checks passed, for the logged-in
/// session `session`, at `now`, with the random value `random` for new
/// identifiers.
pub open spec fn visit(
    r: Result<GetOutcome, RouteError>,
    v: RepositoryView,
    w: RepositoryView,
    c: Seq<EntryView>,
    link_id: u128,
    li: int,
    si: int,
    action: Option<PostAuthAction>,
    session: Option<BrowserSession>,
    now: u64,
    random: u128,
    user_agent: Option<String>,
) -> bool {
    let link = v.links[li];
    let upstream = v.upstream_sessions[si];
    match branch(session, link.user_id) {
        Branch::Reauthenticate => {
            &&& r matches Ok(
                GetOutcome::Redirect { post_auth_action, browser_session_id, cookie: kept },
            )
            &&& post_auth_action == action
            &&& browser_session_id == session->0.id
            &&& kept@ == c.remove(find_first(c, |e: EntryView| e.link == Some(link_id))->0)
            &&& w == with_authentication(
                consume_step(v, si, now)->0,
                session->0.id,
                upstream.id,
                now,
                spec_mint(now, random, 0),
            )
        },
        Branch::Mismatch => w == v && match valid_user(v, link.user_id->0) {
            Some(ui) => r == Ok::<GetOutcome, RouteError>(
                GetOutcome::ExistingLinkMismatch { user: v.users[ui], session: session->0 },
            ),
            None => r == Err::<GetOutcome, RouteError>(RouteError::UserNotFound),
        },
        Branch::Suggest => w == v && r == Ok::<GetOutcome, RouteError>(
            GetOutcome::SuggestLink { link, session: session->0 },
        ),
        Branch::Login => match valid_user(v, link.user_id->0) {
            None => w == v && r == Err::<GetOutcome, RouteError>(RouteError::UserNotFound),
            Some(ui) => {
                let id = spec_mint(now, random, 0);
                let opened = RepositoryView {
                    browser_sessions: v.browser_sessions.push(
                        new_browser_session(v.users[ui], now, id, user_agent),
                    ),
                    ..v
                };
                &&& r matches Ok(
                    GetOutcome::Redirect { post_auth_action, browser_session_id, cookie: kept },
                )
                &&& post_auth_action == action
                &&& browser_session_id == id
                &&& kept@ == c.remove(find_first(c, |e: EntryView| e.link == Some(link_id))->0)
                &&& w == with_authentication(
                    consume_step(opened, si, now)->0,
                    id,
                    upstream.id,
                    now,
                    spec_mint(now, random, 1),
                )
            },
        },
        Branch::Register => w == v && register_visit(r, v, li, si),
    }
}

/// The last steps of every completed flow: consume the upstream session,
/// record the authentication, and drop the cookie's entry for the link.
fn complete(
    repo: &mut Repository,
    cookie: &UpstreamSessionsCookie,
    link_id: u128,
    si: usize,
    browser_session_id: u128,
    now: u64,
    authentication_id: u128,
) -> (r: Result<UpstreamSessionsCookie, RouteError>)
    requires
        si < old(repo)@.upstream_sessions.len(),
        old(repo)@.upstream_sessions[si as int].consumed_at is None,
        find_first(cookie@, |e: EntryView| e.link == Some(link_id)) is Some,
    ensures
        r matches Ok(c) && c@ == cookie@.remove(
            find_first(cookie@, |e: EntryView| e.link == Some(link_id))->0,
        ),
        final(repo)@ == with_authentication(
            consume_step(old(repo)@, si as int, now)->0,
            browser_session_id,
            old(repo)@.upstream_sessions[si as int].id,
            now,
            authentication_id,
        ),
{
    let upstream_id = repo.upstream_sessions[si].id;
    let _ = repo.consume_upstream_session(si, now);
    repo.authenticate_with_upstream(browser_session_id, upstream_id, now, authentication_id);
    match cookie.duplicate().consume_link(link_id) {
        Ok(kept) => Ok(kept),
        Err(_) => Err(RouteError::MissingCookie),
    }
}

/// Handles the return from the upstream provider on link `link_id`.
///
/// `browser_session_id` is the session named by the browser's session
/// cookie; `now` and `random` stamp and identify what is created. On error
/// nothing is written.
pub fn link_get(
    repo: &mut Repository,
    cookie: &UpstreamSessionsCookie,
    link_id: u128,
    browser_session_id: Option<u128>,
    now: u64,
    random: u128,
    user_agent: Option<String>,
) -> (r: Result<GetOutcome, RouteError>)
    ensures
        r is Err ==> final(repo)@ == old(repo)@,
        match spec_guard(old(repo)@, cookie@, link_id) {
            Err(f) => (r matches Err(e) && guard_error(e, f, cookie@, link_id)),
            Ok((li, si, action)) => visit(
                r,
                old(repo)@,
                final(repo)@,
                cookie@,
                link_id,
                li,
                si,
                action,
                spec_load_session(old(repo)@, browser_session_id),
                now,
                random,
                user_agent,
            ),
        },
{
    let (li, si, post_auth_action) = match guard(repo, cookie, link_id) {
        Ok(g) => g,
        Err(e) => {
            return Err(e);
        },
    };
    let maybe_session = repo.load_session(browser_session_id);
    let link_user = repo.links[li].user_id;
    match (maybe_session, link_user) {
        (Some(session), Some(user_id)) => {
            if session.user.id == user_id {
                let kept = match complete(repo, cookie, link_id, si, session.id, now, mint(now, random, 0)) {
                    Ok(kept) => kept,
                    Err(e) => {
                        return Err(e);
                    },
                };
                Ok(GetOutcome::Redirect { post_auth_action, browser_session_id: session.id, cookie: kept })
            } else {
                match repo.find_valid_user(user_id) {
                    Some(ui) => Ok(
                        GetOutcome::ExistingLinkMismatch { user: repo.users[ui].duplicate(), session },
                    ),
                    None => Err(RouteError::UserNotFound),
                }
            }
        },
        (Some(session), None) => {
            let link = &repo.links[li];
            Ok(
                GetOutcome::SuggestLink {
                    link: UpstreamOAuthLink {
                        id: link.id,
                        provider_id: link.provider_id,
                        subject: link.subject.clone(),
                        user_id: link.user_id,
                        created_at: link.created_at,
                    },
                    session,
                },
            )
        },
        (None, Some(user_id)) => {
            let ui = match repo.find_valid_user(user_id) {
                Some(ui) => ui,
                None => {
                    return Err(RouteError::UserNotFound);
                },
            };
            let user = repo.users[ui].duplicate();
            let id = mint(now, random, 0);
            repo.add_browser_session(&user, now, id, user_agent);
            let kept = match complete(repo, cookie, link_id, si, id, now, mint(now, random, 1)) {
                Ok(kept) => kept,
                Err(e) => {
                    return Err(e);
                },
            };
            Ok(GetOutcome::Redirect { post_auth_action, browser_session_id: id, cookie: kept })
        },
        (None, None) => register_offer(repo, li, si),
    }
}

/// Decides on a localpart that is free locally, given the homeserver's
/// answer on its availability there: a failed query is an error, a taken
/// name stops the flow, a free one goes on to the policy.
pub fn localpart_availability(check: LocalpartCheck, homeserver: Result<bool, String>) -> (r: Result<
    GetOutcome,
    RouteError,
>)
    ensures
        match homeserver {
            Err(m) => r == Err::<GetOutcome, RouteError>(RouteError::HomeserverConnection { message: m }),
            Ok(true) => r == Ok::<GetOutcome, RouteError>(GetOutcome::CheckPolicy(check)),
            Ok(false) => (r matches Ok(GetOutcome::Error(page)) && page.code == ErrorCode::UserExists
                && page.localpart == check.localpart && page.violations@.len() == 0),
        },
{
    match homeserver {
        Err(message) => Err(RouteError::HomeserverConnection { message }),
        Ok(true) => Ok(GetOutcome::CheckPolicy(check)),
        Ok(false) => Ok(
            GetOutcome::Error(
                ErrorPage { code: ErrorCode::UserExists, localpart: check.localpart, violations: Vec::new() },
            ),
        ),
    }
}

/// Decides on a localpart free locally and on the homeserver, given the
/// policy's decision on registering it: allowed, it is offered; denied, it
/// stops the flow when forced and is dropped otherwise.
pub fn finish_localpart_check(check: LocalpartCheck, policy: PolicyDecision) -> (r: GetOutcome)
    ensures
        r == if policy.violations@.len() == 0 {
            GetOutcome::Register(
                UpstreamRegister {
                    imported_localpart: Some(check.localpart),
                    force_localpart: check.forced,
                    ..check.context
                },
            )
        } else if check.forced {
            GetOutcome::Error(
                ErrorPage {
                    code: ErrorCode::PolicyDenied,
                    localpart: check.localpart,
                    violations: policy.violations,
                },
            )
        } else {
            GetOutcome::Register(check.context)
        },
{
    if policy.valid() {
        let LocalpartCheck { localpart, forced, context } = check;
        GetOutcome::Register(
            UpstreamRegister { imported_localpart: Some(localpart), force_localpart: forced, ..context },
        )
    } else if check.forced {
        GetOutcome::Error(
            ErrorPage { code: ErrorCode::PolicyDenied, localpart: check.localpart, violations: policy.violations },
        )
    } else {
        GetOutcome::Register(check.context)
    }
}

/// What the policy is asked about registering `username` through an
/// upstream provider.
pub fn register_input(username: &String, email: &Option<String>, requester: Requester) -> (r: RegisterInput)
    ensures
        r.registration_method == RegistrationMethod::UpstreamOAuth2,
        r.username@ == username@,
        r.email == *email,
        r.requester == requester,
{
    let email = match email {
        Some(e) => Some(e.clone()),
        None => None,
    };
    RegisterInput {
        registration_method: RegistrationMethod::UpstreamOAuth2,
        username: username.clone(),
        email,
        requester,
    }
}

/// The form submitted on a link.
#[derive(Debug, Clone, PartialEq, Eq)]
pub enum FormData {
    /// Register a new account; a checkbox is `Some` when ticked.
    Register {
        username: Option<String>,
        import_email: Option<String>,
        import_display_name: Option<String>,
        accept_terms: Option<String>,
    },
    /// Link the logged-in account.
    Link,
}

/// A registration, its attributes rendered, waiting for the homeserver's and
/// the policy's answers before it is validated by `finish_registration`.
#[derive(Debug, Clone, PartialEq, Eq)]
pub struct RegistrationDraft {
    pub link_id: u128,
    pub username: String,
    pub email: Option<String>,
    pub display_name: Option<String>,
    pub accept_terms: bool,
    pub context: UpstreamRegister,
    /// The username is non-empty and free locally: ask the homeserver about
    /// it and pass its answer to `username_availability`.
    pub homeserver_check: bool,
    /// The homeserver answered that the username is taken there.
    pub homeserver_refused: bool,
}

/// What a submitted form leads to.
#[derive(Debug, Clone, PartialEq, Eq)]
pub enum PostOutcome {
    /// The flow completed; save `cookie` (`None` removes it) and go on.
    Redirect {
        post_auth_action: Option<PostAuthAction>,
        browser_session_id: u128,
        cookie: UpstreamSessionsCookie,
    },
    /// Ask the homeserver about the draft's username when the draft says so,
    /// then the policy, and finish with `finish_registration`.
    Validate(RegistrationDraft),
    /// The form has errors: show it again.
    Form(UpstreamRegister),
}

/// The draft a registration form yields: display name and email imported
/// when their policy and the user's choice say so, and the username from a
/// forced template or else from the form.
pub open spec fn draft_of(
    r: Result<PostOutcome, RouteError>,
    v: RepositoryView,
    li: int,
    si: int,
    link_id: u128,
    username: Option<String>,
    import_email: bool,
    import_display_name: bool,
    accept_terms: bool,
) -> bool {
    let link = v.links[li];
    let s = v.upstream_sessions[si];
    match provider_pos(v, link.provider_id) {
        None => r == Err::<PostOutcome, RouteError>(RouteError::ProviderNotFound),
        Some(pi) => {
            let imports = v.providers[pi].claims_imports;
            let d = attr(imports.displayname, DEFAULT_DISPLAYNAME_TEMPLATE@, s,
                imports.displayname.action == ImportAction::Force || (imports.displayname.action
                    == ImportAction::Suggest && import_display_name));
            let e = attr(imports.email, DEFAULT_EMAIL_TEMPLATE@, s,
                imports.email.action == ImportAction::Force || (imports.email.action
                    == ImportAction::Suggest && import_email));
            let forced = imports.localpart.action == ImportAction::Force;
            let l = attr(imports.localpart, DEFAULT_LOCALPART_TEMPLATE@, s, forced);
            if attr_fails(d) {
                r matches Err(err) && attr_error(err, d, imports.displayname, DEFAULT_DISPLAYNAME_TEMPLATE@)
            } else if attr_fails(e) {
                r matches Err(err) && attr_error(err, e, imports.email, DEFAULT_EMAIL_TEMPLATE@)
            } else if forced && attr_fails(l) {
                r matches Err(err) && attr_error(err, l, imports.localpart, DEFAULT_LOCALPART_TEMPLATE@)
            } else {
                &&& r matches Ok(PostOutcome::Validate(draft))
                &&& draft.link_id == link_id
                &&& attr_value(draft.display_name, d)
                &&& attr_value(draft.email, e)
                &&& draft.accept_terms == accept_terms
                &&& draft.homeserver_check == (draft.username@.len() > 0 && !has_username(
                    v.users,
                    draft.username@,
                ))
                &&& !draft.homeserver_refused
                &&& (if forced {
                    match l {
                        Attr::Value(lp) => draft.username@ == lp,
                        _ => draft.username@.len() == 0,
                    }
                } else {
                    match username {
                        Some(u) => draft.username@ == u@,
                        None => draft.username@.len() == 0,
                    }
                })
                &&& draft.context.link_id == link.id
                &&& draft.context.provider_id == v.providers[pi].id
                &&& draft.context.imported_localpart == Some(draft.username)
                &&& draft.context.force_localpart == forced
                &&& attr_value(draft.context.imported_display_name, d)
                &&& attr_value(draft.context.imported_email, e)
            }
        },
    }
}

/// Renders the attributes of a registration form into a draft.
fn registration_draft(
    repo: &Repository,
    li: usize,
    si: usize,
    link_id: u128,
    username: Option<String>,
    import_email: bool,
    import_display_name: bool,
    accept_terms: bool,
) -> (r: Result<PostOutcome, RouteError>)
    requires
        li < repo@.links.len(),
        si < repo@.upstream_sessions.len(),
    ensures
        draft_of(r, repo@, li as int, si as int, link_id, username, import_email, import_display_name, accept_terms),
{
    let link = &repo.links[li];
    let session = &repo.upstream_sessions[si];
    let pi = repo.find_provider(link.provider_id);
    proof {
        lemma_find_first(repo.providers@, |p: UpstreamOAuthProvider| p.id == link.provider_id, pi);
    }
    let pi = match pi {
        Some(i) => i,
        None => {
            return Err(RouteError::ProviderNotFound);
        },
    };
    let provider = &repo.providers[pi];
    let imports = &provider.claims_imports;
    let ctx = claims_context(session);
    let ghost s = *session;
    let display_name = import_attribute(
        &imports.displayname,
        DEFAULT_DISPLAYNAME_TEMPLATE,
        &ctx,
        Ghost(s),
        imports.displayname.should_import(import_display_name),
    )?;
    let email = import_attribute(
        &imports.email,
        DEFAULT_EMAIL_TEMPLATE,
        &ctx,
        Ghost(s),
        imports.email.should_import(import_email),
    )?;
    let forced = imports.localpart.is_forced();
    let chosen = if forced {
        import_attribute(&imports.localpart, DEFAULT_LOCALPART_TEMPLATE, &ctx, Ghost(s), true)?
    } else {
        username
    };
    let username = match chosen {
        Some(u) => u,
        None => String::new(),
    };
    let homeserver_check = !username.as_str().is_empty() && !repo.user_exists(&username);
    let context = UpstreamRegister {
        link_id: link.id,
        provider_id: provider.id,
        imported_localpart: Some(username.clone()),
        force_localpart: forced,
        imported_display_name: match &display_name {
            Some(d) => Some(d.clone()),
            None => None,
        },
        force_display_name: display_name.is_some() && imports.displayname.is_forced(),
        imported_email: match &email {
            Some(e) => Some(e.clone()),
            None => None,
        },
        force_email: email.is_some() && imports.email.is_forced(),
        form_state: FormState::new(),
    };
    Ok(
        PostOutcome::Validate(
            RegistrationDraft {
                link_id,
                username,
                email,
                display_name,
                accept_terms,
                context,
                homeserver_check,
                homeserver_refused: false,
            },
        ),
    )
}

/// What submitting `form` on a link does, once its checks passed: link the
/// logged-in user to an unbound link and complete, or draft a registration
/// when nobody is logged in and the link is unbound; any other combination
/// is refused.
pub open spec fn submit(
    r: Result<PostOutcome, RouteError>,
    v: RepositoryView,
    w: RepositoryView,
    c: Seq<EntryView>,
    link_id: u128,
    li: int,
    si: int,
    action: Option<PostAuthAction>,
    session: Option<BrowserSession>,
    form: FormData,
    now: u64,
    random: u128,
) -> bool {
    let link = v.links[li];
    match (session, link.user_id, form) {
        (Some(s), None, FormData::Link) => {
            &&& r matches Ok(PostOutcome::Redirect { post_auth_action, browser_session_id, cookie })
            &&& post_auth_action == action
            &&& browser_session_id == s.id
            &&& cookie@ == c.remove(find_first(c, |e: EntryView| e.link == Some(link_id))->0)
            &&& w == with_authentication(
                consume_step(with_link_bound(v, li, s.user.id), si, now)->0,
                s.id,
                v.upstream_sessions[si].id,
                now,
                spec_mint(now, random, 0),
            )
        },
        (None, None, FormData::Register { username, import_email, import_display_name, accept_terms }) => w == v
            && draft_of(r, v, li, si, link_id, username, import_email is Some, import_display_name is Some, accept_terms is Some),
        _ => w == v && r == Err::<PostOutcome, RouteError>(RouteError::InvalidFormAction),
    }
}

/// Handles a form submitted on link `link_id`. On error nothing is written.
pub fn link_post(
    repo: &mut Repository,
    cookie: &UpstreamSessionsCookie,
    link_id: u128,
    browser_session_id: Option<u128>,
    form: FormData,
    now: u64,
    random: u128,
) -> (r: Result<PostOutcome, RouteError>)
    ensures
        r is Err ==> final(repo)@ == old(repo)@,
        match spec_guard(old(repo)@, cookie@, link_id) {
            Err(f) => (r matches Err(e) && guard_error(e, f, cookie@, link_id)) && final(repo)@
                == old(repo)@,
            Ok((li, si, action)) => submit(
                r,
                old(repo)@,
                final(repo)@,
                cookie@,
                link_id,
                li,
                si,
                action,
                spec_load_session(old(repo)@, browser_session_id),
                form,
                now,
                random,
            ),
        },
{
    let (li, si, post_auth_action) = match guard(repo, cookie, link_id) {
        Ok(g) => g,
        Err(e) => {
            return Err(e);
        },
    };
    let maybe_session = repo.load_session(browser_session_id);
    let link_user = repo.links[li].user_id;
    match (maybe_session, link_user, form) {
        (Some(session), None, FormData::Link) => {
            repo.associate_to_user(li, session.user.id);
            let kept = complete(repo, cookie, link_id, si, session.id, now, mint(now, random, 0))?;
            Ok(PostOutcome::Redirect { post_auth_action, browser_session_id: session.id, cookie: kept })
        },
        (None, None, FormData::Register { username, import_email, import_display_name, accept_terms }) => {
            registration_draft(
                repo,
                li,
                si,
                link_id,
                username,
                import_email.is_some(),
                import_display_name.is_some(),
                accept_terms.is_some(),
            )
        },
        _ => Err(RouteError::InvalidFormAction),
    }
}

/// Whether a violation is about the username field.
pub open spec fn on_username(v: Violation) -> bool {
    v.field matches Some(f) && f@ == "username"@
}

/// The form error of a violation.
pub open spec fn policy_error(v: Violation) -> FieldError {
    FieldError::Policy { code: v.code, message: v.msg }
}

/// The username errors the policy's violations raise, in order.
pub open spec fn policy_field_errors(vs: Seq<Violation>) -> Seq<(RegisterField, FieldError)>
    decreases vs.len(),
{
    if vs.len() == 0 {
        Seq::empty()
    } else {
        let rest = policy_field_errors(vs.drop_last());
        if on_username(vs.last()) {
            rest.push((RegisterField::Username, policy_error(vs.last())))
        } else {
            rest
        }
    }
}

/// The form-wide errors the policy's violations raise, in order.
pub open spec fn policy_form_errors(vs: Seq<Violation>) -> Seq<FormError>
    decreases vs.len(),
{
    if vs.len() == 0 {
        Seq::empty()
    } else {
        let rest = policy_form_errors(vs.drop_last());
        if on_username(vs.last()) {
            rest
        } else {
            rest.push(FormError::Policy { code: vs.last().code, message: vs.last().msg })
        }
    }
}

/// The field errors of a registration: the username is required, then must
/// not exist locally; the terms must be accepted when there are any; then
/// the policy's username violations; and a username the homeserver refused
/// counts as existing unless the policy already objected to it.
pub open spec fn field_errors(
    username: Seq<char>,
    taken: bool,
    available: bool,
    terms_missing: bool,
    vs: Seq<Violation>,
) -> Seq<(RegisterField, FieldError)> {
    let first = if username.len() == 0 {
        seq![(RegisterField::Username, FieldError::Required)]
    } else if taken {
        seq![(RegisterField::Username, FieldError::Exists)]
    } else {
        Seq::empty()
    };
    let terms = if terms_missing {
        seq![(RegisterField::AcceptTerms, FieldError::Required)]
    } else {
        Seq::empty()
    };
    let policy = policy_field_errors(vs);
    let refused = username.len() > 0 && !taken && !available && policy.len() == 0;
    first + terms + policy + if refused {
        seq![(RegisterField::Username, FieldError::Exists)]
    } else {
        Seq::empty()
    }
}

/// The outcome of validating a registration. The homeserver is only
/// consulted for a non-empty username that does not exist locally.
pub open spec fn validation(
    r: Result<FormState, RouteError>,
    username: Seq<char>,
    taken: bool,
    homeserver: Result<bool, String>,
    terms_missing: bool,
    vs: Seq<Violation>,
) -> bool {
    if username.len() > 0 && !taken && homeserver is Err {
        r == Err::<FormState, RouteError>(
            RouteError::HomeserverConnection { message: homeserver->Err_0 },
        )
    } else {
        let available = match homeserver {
            Ok(a) => a,
            Err(_) => true,
        };
        r matches Ok(fs) && fs.field_errors@ == field_errors(username, taken, available, terms_missing, vs)
            && fs.form_errors@ == policy_form_errors(vs)
    }
}

/// Validates a registration form, given whether the username exists
/// locally, the homeserver's answer on it, whether terms must be accepted,
/// and the policy's decision.
pub fn validate_registration(
    username: &String,
    taken: bool,
    homeserver: &Result<bool, String>,
    terms_missing: bool,
    policy: &PolicyDecision,
) -> (r: Result<FormState, RouteError>)
    ensures
        validation(r, username@, taken, *homeserver, terms_missing, policy.violations@),
        username@.len() > 0 && !taken && *homeserver == Ok::<bool, String>(false)
            && policy_field_errors(policy.violations@).len() == 0 ==> (r matches Ok(fs)
            && fs.field_errors@.contains((RegisterField::Username, FieldError::Exists))),
{
    let mut form_state = FormState::new();
    let mut refused = false;
    if username.as_str().is_empty() {
        form_state.add_error_on_field(RegisterField::Username, FieldError::Required);
    } else if taken {
        form_state.add_error_on_field(RegisterField::Username, FieldError::Exists);
    } else {
        match homeserver {
            Ok(available) => {
                refused = !*available;
            },
            Err(message) => {
                return Err(RouteError::HomeserverConnection { message: message.clone() });
            },
        }
    }
    if terms_missing {
        form_state.add_error_on_field(RegisterField::AcceptTerms, FieldError::Required);
    }
    let ghost head = form_state.field_errors@;
    let key = "username".to_owned();
    let vs = &policy.violations;
    let mut i: usize = 0;
    assert(vs@.subrange(0, 0) =~= Seq::<Violation>::empty());
    while i < vs.len()
        invariant
            i <= vs@.len(),
            key@ == "username"@,
            form_state.field_errors@ == head + policy_field_errors(vs@.subrange(0, i as int)),
            form_state.form_errors@ == policy_form_errors(vs@.subrange(0, i as int)),
            refused ==> policy_field_errors(vs@.subrange(0, i as int)).len() == 0,
            policy_field_errors(vs@.subrange(0, i as int)).len() == 0 ==> refused == (username@.len() > 0
                && !taken && *homeserver == Ok::<bool, String>(false)),
        decreases vs@.len() - i,
    {
        let v = &vs[i];
        let code = match &v.code {
            Some(c) => Some(c.clone()),
            None => None,
        };
        let named = match &v.field {
            Some(f) => *f == key,
            None => false,
        };
        assert(vs@.subrange(0, i + 1).drop_last() =~= vs@.subrange(0, i as int));
        if named {
            refused = false;
            form_state.add_error_on_field(
                RegisterField::Username,
                FieldError::Policy { code, message: v.msg.clone() },
            );
            assert(form_state.field_errors@ =~= head + policy_field_errors(vs@.subrange(0, i + 1)));
        } else {
            form_state.add_error_on_form(FormError::Policy { code, message: v.msg.clone() });
        }
        i += 1;
    }
    assert(vs@.subrange(0, vs@.len() as int) =~= vs@);
    if refused {
        form_state.add_error_on_field(RegisterField::Username, FieldError::Exists);
    }
    proof {
        let available = match *homeserver {
            Ok(a) => a,
            Err(_) => true,
        };
        let expected = field_errors(username@, taken, available, terms_missing, vs@);
        assert(form_state.field_errors@ =~= expected);
        if username@.len() > 0 && !taken && *homeserver == Ok::<bool, String>(false)
            && policy_field_errors(vs@).len() == 0 {
            assert(expected.last() == (RegisterField::Username, FieldError::Exists));
            assert(expected.contains(expected[expected.len() - 1]));
        }
    }
    Ok(form_state)
}

/// Records the homeserver's answer on a draft's username: a failed query
/// is an error; otherwise the draft notes whether the name is taken there.
pub fn username_availability(draft: RegistrationDraft, homeserver: Result<bool, String>) -> (r: Result<
    RegistrationDraft,
    RouteError,
>)
    ensures
        match homeserver {
            Err(m) => r == Err::<RegistrationDraft, RouteError>(
                RouteError::HomeserverConnection { message: m },
            ),
            Ok(available) => r == Ok::<RegistrationDraft, RouteError>(
                RegistrationDraft { homeserver_check: false, homeserver_refused: !available, ..draft },
            ),
        },
{
    match homeserver {
        Err(message) => Err(RouteError::HomeserverConnection { message }),
        Ok(available) => Ok(
            RegistrationDraft { homeserver_check: false, homeserver_refused: !available, ..draft },
        ),
    }
}

/// What a completed registration writes: the user, the terms acceptance
/// when there are terms, the provisioning job, the email when imported, the
/// link bound to the user, a browser session, the consumed upstream session
/// and its authentication.
pub open spec fn registration_writes(
    v: RepositoryView,
    w: RepositoryView,
    draft: RegistrationDraft,
    li: int,
    si: int,
    tos_uri: Option<String>,
    now: u64,
    random: u128,
    user_agent: Option<String>,
) -> bool {
    let user_id = spec_mint(now, random, 0);
    let user = w.users.last();
    let session_id = spec_mint(now, random, 4);
    &&& w.users.len() == v.users.len() + 1
    &&& w.users.drop_last() == v.users
    &&& user.id == user_id
    &&& user.username@ == draft.username@
    &&& user.created_at == now
    &&& user.locked_at is None
    &&& w.terms_acceptances == match tos_uri {
        Some(t) => v.terms_acceptances.push(
            TermsAcceptance { id: spec_mint(now, random, 1), user_id, terms_url: t, accepted_at: now },
        ),
        None => v.terms_acceptances,
    }
    &&& w.jobs == v.jobs.push(
        ProvisionUserJob {
            id: spec_mint(now, random, 2),
            user_id,
            display_name: draft.display_name,
            scheduled_at: now,
        },
    )
    &&& w.user_emails == match draft.email {
        Some(e) => v.user_emails.push(
            UserEmail { id: spec_mint(now, random, 3), user_id, email: e, created_at: now },
        ),
        None => v.user_emails,
    }
    &&& w.links == v.links.update(li, UpstreamOAuthLink { user_id: Some(user_id), ..v.links[li] })
    &&& w.browser_sessions == v.browser_sessions.push(
        new_browser_session(user, now, session_id, user_agent),
    )
    &&& w.upstream_sessions == consume_step(v, si, now)->0.upstream_sessions
    &&& w.session_authentications == with_authentication(
        v,
        session_id,
        v.upstream_sessions[si].id,
        now,
        spec_mint(now, random, 5),
    ).session_authentications
    &&& w.providers == v.providers
}

/// Completes a registration draft once the homeserver's answer on its
/// username is recorded (see `username_availability`) and the policy
/// decided on it: re-checks the link, validates the
/// form, and either shows it again with its errors or creates the account,
/// binds the link and logs the user in. On error nothing is written.
pub fn finish_registration(
    repo: &mut Repository,
    cookie: &UpstreamSessionsCookie,
    browser_session_id: Option<u128>,
    draft: RegistrationDraft,
    policy: PolicyDecision,
    tos_uri: Option<String>,
    now: u64,
    random: u128,
    user_agent: Option<String>,
) -> (r: Result<PostOutcome, RouteError>)
    ensures
        r is Err ==> final(repo)@ == old(repo)@,
        match spec_guard(old(repo)@, cookie@, draft.link_id) {
            Err(f) => (r matches Err(e) && guard_error(e, f, cookie@, draft.link_id)),
            Ok((li, si, action)) => if spec_load_session(old(repo)@, browser_session_id) is Some
                || old(repo)@.links[li].user_id is Some {
                r == Err::<PostOutcome, RouteError>(RouteError::InvalidFormAction)
            } else {
                let taken = has_username(old(repo)@.users, draft.username@);
                let terms_missing = tos_uri is Some && !draft.accept_terms;
                {
                    let available = !draft.homeserver_refused;
                    let errors = field_errors(draft.username@, taken, available, terms_missing, policy.violations@);
                    let form_errors = policy_form_errors(policy.violations@);
                    if errors.len() > 0 || form_errors.len() > 0 {
                        &&& final(repo)@ == old(repo)@
                        &&& r matches Ok(PostOutcome::Form(c))
                        &&& c.form_state.field_errors@ == errors
                        &&& c.form_state.form_errors@ == form_errors
                        &&& c == (UpstreamRegister { form_state: c.form_state, ..draft.context })
                    } else {
                        &&& r matches Ok(
                            PostOutcome::Redirect { post_auth_action, browser_session_id: id, cookie: kept },
                        )
                        &&& post_auth_action == action
                        &&& id == spec_mint(now, random, 4)
                        &&& kept@ == cookie@.remove(
                            find_first(cookie@, |e: EntryView| e.link == Some(draft.link_id))->0,
                        )
                        &&& registration_writes(old(repo)@, final(repo)@, draft, li, si, tos_uri, now, random, user_agent)
                    }
                }
            },
        },
{
    let (li, si, post_auth_action) = match guard(repo, cookie, draft.link_id) {
        Ok(g) => g,
        Err(e) => {
            return Err(e);
        },
    };
    if repo.load_session(browser_session_id).is_some() || repo.links[li].user_id.is_some() {
        return Err(RouteError::InvalidFormAction);
    }
    let taken = repo.user_exists(&draft.username);
    let terms_missing = tos_uri.is_some() && !draft.accept_terms;
    let answer: Result<bool, String> = Ok(!draft.homeserver_refused);
    let form_state = match validate_registration(&draft.username, taken, &answer, terms_missing, &policy) {
        Ok(fs) => fs,
        Err(e) => {
            return Err(e);
        },
    };
    if !form_state.is_valid() {
        return Ok(PostOutcome::Form(UpstreamRegister { form_state, ..draft.context }));
    }
    let ghost old_draft = draft;
    let ghost old_tos = tos_uri;
    let ghost old_agent = user_agent;
    let RegistrationDraft { link_id, username, email, display_name, .. } = draft;
    let user_id = mint(now, random, 0);
    let user = repo.add_user(username, now, user_id);
    if let Some(terms_url) = tos_uri {
        repo.accept_terms(user_id, terms_url, now, mint(now, random, 1));
    }
    repo.schedule_job(
        ProvisionUserJob { id: mint(now, random, 2), user_id, display_name, scheduled_at: now },
    );
    if let Some(address) = email {
        let _ = repo.add_user_email(user_id, address, now, mint(now, random, 3));
    }
    repo.associate_to_user(li, user_id);
    let session_id = mint(now, random, 4);
    repo.add_browser_session(&user, now, session_id, user_agent);
    let kept = match complete(repo, cookie, link_id, si, session_id, now, mint(now, random, 5)) {
        Ok(kept) => kept,
        Err(e) => {
            return Err(e);
        },
    };
    assert(repo@.users.drop_last() =~= old(repo)@.users);
    assert(registration_writes(old(repo)@, repo@, old_draft, li as int, si as int, old_tos, now, random, old_agent));
    Ok(PostOutcome::Redirect { post_auth_action, browser_session_id: session_id, cookie: kept })
}

/// Once a request consumed a link's upstream session, replaying it with the
/// same cookie is refused: the tables `w` keep the identifiers of links and
/// sessions, and the session, still on the link, is consumed.
pub proof fn lemma_replay_is_refused(
    v: RepositoryView,
    w: RepositoryView,
    c: Seq<EntryView>,
    link_id: u128,
    li: int,
    si: int,
    action: Option<PostAuthAction>,
)
    requires
        spec_guard(v, c, link_id) == Ok::<(int, int, Option<PostAuthAction>), GuardFailure>((li, si, action)),
        w.links.len() == v.links.len(),
        forall|k: int| 0 <= k < v.links.len() ==> (#[trigger] w.links[k]).id == v.links[k].id,
        w.upstream_sessions.len() == v.upstream_sessions.len(),
        forall|k: int|
            0 <= k < v.upstream_sessions.len() ==> (#[trigger] w.upstream_sessions[k]).id
                == v.upstream_sessions[k].id,
        w.upstream_sessions[si].link_id == v.upstream_sessions[si].link_id,
        w.upstream_sessions[si].consumed_at is Some,
    ensures
        spec_guard(w, c, link_id) == Err::<(int, int, Option<PostAuthAction>), GuardFailure>(
            GuardFailure::SessionConsumed,
        ),
{
    let ci = find_first(c, |e: EntryView| e.link == Some(link_id))->0;
    lemma_find_first_congruent(v.links, w.links, |l: UpstreamOAuthLink| l.id == link_id);
    lemma_find_first_congruent(
        v.upstream_sessions,
        w.upstream_sessions,
        |s: UpstreamOAuthSession| s.id == c[ci].session,
    );
}

/// A completed registration consumed its upstream session: replaying the
/// request with the same cookie is refused.
pub proof fn lemma_registration_replay(
    v: RepositoryView,
    w: RepositoryView,
    c: Seq<EntryView>,
    draft: RegistrationDraft,
    li: int,
    si: int,
    action: Option<PostAuthAction>,
    tos_uri: Option<String>,
    now: u64,
    random: u128,
    user_agent: Option<String>,
)
    requires
        spec_guard(v, c, draft.link_id) == Ok::<(int, int, Option<PostAuthAction>), GuardFailure>(
            (li, si, action),
        ),
        registration_writes(v, w, draft, li, si, tos_uri, now, random, user_agent),
    ensures
        spec_guard(w, c, draft.link_id) == Err::<(int, int, Option<PostAuthAction>), GuardFailure>(
            GuardFailure::SessionConsumed,
        ),
{
    let link_id = draft.link_id;
    let ci = find_first(c, |e: EntryView| e.link == Some(link_id))->0;
    lemma_find_first_found(v.links, |l: UpstreamOAuthLink| l.id == link_id);
    lemma_find_first_found(
        v.upstream_sessions,
        |s: UpstreamOAuthSession| s.id == c[ci].session,
    );
    lemma_replay_is_refused(v, w, c, link_id, li, si, action);
}

/// Linking the logged-in user consumed the upstream session: replaying the
/// request with the same cookie is refused.
pub proof fn lemma_link_replay(
    v: RepositoryView,
    c: Seq<EntryView>,
    link_id: u128,
    li: int,
    si: int,
    action: Option<PostAuthAction>,
    s: BrowserSession,
    now: u64,
    random: u128,
)
    requires
        spec_guard(v, c, link_id) == Ok::<(int, int, Option<PostAuthAction>), GuardFailure>((li, si, action)),
    ensures
        spec_guard(
            with_authentication(
                consume_step(with_link_bound(v, li, s.user.id), si, now)->0,
                s.id,
                v.upstream_sessions[si].id,
                now,
                spec_mint(now, random, 0),
            ),
            c,
            link_id,
        ) == Err::<(int, int, Option<PostAuthAction>), GuardFailure>(GuardFailure::SessionConsumed),
{
    let ci = find_first(c, |e: EntryView| e.link == Some(link_id))->0;
    lemma_find_first_found(v.links, |l: UpstreamOAuthLink| l.id == link_id);
    lemma_find_first_found(
        v.upstream_sessions,
        |s: UpstreamOAuthSession| s.id == c[ci].session,
    );
    let w = with_authentication(
        consume_step(with_link_bound(v, li, s.user.id), si, now)->0,
        s.id,
        v.upstream_sessions[si].id,
        now,
        spec_mint(now, random, 0),
    );
    lemma_replay_is_refused(v, w, c, link_id, li, si, action);
}

/// A forced localpart that renders empty stops a visit with an unbound link:
/// the answer is an error, never a registration offer, and it is the
/// localpart's emptiness error unless the display name or the email failed
/// first.
pub proof fn lemma_forced_empty_localpart_visit(
    r: Result<GetOutcome, RouteError>,
    v: RepositoryView,
    li: int,
    si: int,
    pi: int,
)
    requires
        register_visit(r, v, li, si),
        provider_pos(v, v.links[li].provider_id) == Some(pi),
        v.providers[pi].claims_imports.localpart.action == ImportAction::Force,
        rendered_for(
            spec_template_or(v.providers[pi].claims_imports.localpart.template, DEFAULT_LOCALPART_TEMPLATE@),
            v.upstream_sessions[si],
        ) == Some(Seq::<char>::empty()),
    ensures
        r is Err,
        ({
            let imports = v.providers[pi].claims_imports;
            let s = v.upstream_sessions[si];
            let d = attr(imports.displayname, DEFAULT_DISPLAYNAME_TEMPLATE@, s, imports.displayname.action != ImportAction::Ignore);
            let e = attr(imports.email, DEFAULT_EMAIL_TEMPLATE@, s, imports.email.action != ImportAction::Ignore);
            !attr_fails(d) && !attr_fails(e) ==> (r matches Err(RouteError::RequiredAttributeEmpty { template })
                && template@ == spec_template_or(imports.localpart.template, DEFAULT_LOCALPART_TEMPLATE@))
        }),
{
}

/// A forced localpart that renders empty stops a registration form: the
/// submitted username is not used, the answer is an error, and it is the
/// localpart's emptiness error unless the display name or the email failed
/// first.
pub proof fn lemma_forced_empty_localpart_submit(
    r: Result<PostOutcome, RouteError>,
    v: RepositoryView,
    li: int,
    si: int,
    pi: int,
    link_id: u128,
    username: Option<String>,
    import_email: bool,
    import_display_name: bool,
    accept_terms: bool,
)
    requires
        draft_of(r, v, li, si, link_id, username, import_email, import_display_name, accept_terms),
        provider_pos(v, v.links[li].provider_id) == Some(pi),
        v.providers[pi].claims_imports.localpart.action == ImportAction::Force,
        rendered_for(
            spec_template_or(v.providers[pi].claims_imports.localpart.template, DEFAULT_LOCALPART_TEMPLATE@),
            v.upstream_sessions[si],
        ) == Some(Seq::<char>::empty()),
    ensures
        r is Err,
        ({
            let imports = v.providers[pi].claims_imports;
            let s = v.upstream_sessions[si];
            let d = attr(imports.displayname, DEFAULT_DISPLAYNAME_TEMPLATE@, s,
                imports.displayname.action == ImportAction::Force || (imports.displayname.action
                    == ImportAction::Suggest && import_display_name));
            let e = attr(imports.email, DEFAULT_EMAIL_TEMPLATE@, s,
                imports.email.action == ImportAction::Force || (imports.email.action
                    == ImportAction::Suggest && import_email));
            !attr_fails(d) && !attr_fails(e) ==> (r matches Err(RouteError::RequiredAttributeEmpty { template })
                && template@ == spec_template_or(imports.localpart.template, DEFAULT_LOCALPART_TEMPLATE@))
        }),
{
}

} // verus!
