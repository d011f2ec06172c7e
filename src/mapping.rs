//! Rendering user attributes (localpart, display name, email) from upstream
//! claims, under a per-attribute import policy.
use vstd::prelude::*;

use crate::claims::{opt_view, ClaimsContext};
use crate::error::RouteError;

verus! {

/// How strongly an upstream attribute is imported.
#[derive(Debug, Clone, Copy, PartialEq, Eq)]
pub enum ImportAction {
    /// Never imported.
    Ignore,
    /// Offered to the user, who may opt in.
    Suggest,
    /// Always imported; must render to a non-empty value.
    Force,
}

/// The import policy of one attribute, with an optional template.
#[derive(Debug, Clone, PartialEq, Eq)]
pub struct ImportPreference {
    pub action: ImportAction,
    pub template: Option<String>,
}

impl ImportPreference {
    /// Whether the attribute is never imported.
    pub fn ignore(&self) -> (r: bool)
        ensures
            r == (self.action == ImportAction::Ignore),
    {
        matches!(self.action, ImportAction::Ignore)
    }

    /// Whether the imported value overrides what the user enters.
    pub fn is_forced(&self) -> (r: bool)
        ensures
            r == (self.action == ImportAction::Force),
    {
        matches!(self.action, ImportAction::Force)
    }

    /// Whether the attribute must render to a non-empty value.
    pub fn is_required(&self) -> (r: bool)
        ensures
            r == (self.action == ImportAction::Force),
    {
        matches!(self.action, ImportAction::Force)
    }

    /// Whether the attribute is imported, given the user's own choice.
    pub fn should_import(&self, user_opted_in: bool) -> (r: bool)
        ensures
            r == (self.action == ImportAction::Force || (self.action == ImportAction::Suggest
                && user_opted_in)),
    {
        match self.action {
            ImportAction::Ignore => false,
            ImportAction::Suggest => user_opted_in,
            ImportAction::Force => true,
        }
    }

    /// The template of this attribute, or `default` when none is set.
    pub fn template_or(&self, default: &str) -> (r: String)
        ensures
            r@ == spec_template_or(self.template, default@),
    {
        match &self.template {
            Some(t) => t.clone(),
            None => default.to_owned(),
        }
    }
}

/// The template of an attribute, or `default` when none is set.
pub open spec fn spec_template_or(template: Option<String>, default: Seq<char>) -> Seq<char> {
    match template {
        Some(t) => t@,
        None => default,
    }
}

/// The import policies of the attributes of a new account.
#[derive(Debug, Clone, PartialEq, Eq)]
pub struct ClaimsImports {
    pub localpart: ImportPreference,
    pub displayname: ImportPreference,
    pub email: ImportPreference,
}

/// What a template renders to against a context: `None` when rendering fails.
pub uninterp spec fn template_output(
    template: Seq<char>,
    user: Option<Seq<(Seq<char>, Seq<char>)>>,
    id_token_claims: Option<Seq<(Seq<char>, Seq<char>)>>,
    extra_callback_parameters: Option<Seq<(Seq<char>, Seq<char>)>>,
    userinfo_claims: Option<Seq<(Seq<char>, Seq<char>)>>,
) -> Option<Seq<char>>;

/// What `template` renders to against `ctx`.
pub open spec fn rendered(template: Seq<char>, ctx: ClaimsContext) -> Option<Seq<char>> {
    template_output(
        template,
        opt_view(ctx.user),
        opt_view(ctx.id_token_claims),
        opt_view(ctx.extra_callback_parameters),
        opt_view(ctx.userinfo_claims),
    )
}

/// Relies on `minijinja::Environment::render_str` with a fresh default
/// environment: the output depends on the template and the variables alone.
/// Each source of claims is a map variable; an absent one is undefined.
#[verifier::external_body]
fn render_template(template: &str, ctx: &ClaimsContext) -> (r: Result<String, String>)
    ensures
        template_output(
            template@,
            opt_view(ctx.user),
            opt_view(ctx.id_token_claims),
            opt_view(ctx.extra_callback_parameters),
            opt_view(ctx.userinfo_claims),
        ) == output_view(r),
{
    let var = |c: &Option<crate::claims::Claims>| c.as_ref().map_or(minijinja::Value::UNDEFINED,
        |c| c.entries.iter().map(|e| (e.name.clone(), e.value.clone())).collect());
    let vars = minijinja::Value::from_iter([
        ("user", var(&ctx.user)),
        ("id_token_claims", var(&ctx.id_token_claims)),
        ("extra_callback_parameters", var(&ctx.extra_callback_parameters)),
        ("userinfo_claims", var(&ctx.userinfo_claims)),
    ]);
    minijinja::Environment::new().render_str(template, vars).map_err(|e| e.to_string())
}

/// What an attribute becomes once its template rendered to `output`: an
/// empty or failed rendering is dropped, unless the attribute is required.
pub open spec fn attribute_result(
    r: Result<Option<String>, RouteError>,
    template: Seq<char>,
    output: Option<Seq<char>>,
    required: bool,
) -> bool {
    match output {
        Some(v) => if v.len() == 0 {
            if required {
                r matches Err(RouteError::RequiredAttributeEmpty { template: t }) && t@ == template
            } else {
                r == Ok::<Option<String>, RouteError>(None)
            }
        } else {
            r matches Ok(Some(s)) && s@ == v
        },
        None => if required {
            r matches Err(RouteError::RequiredAttributeRender { template: t, .. }) && t@
                == template
        } else {
            r == Ok::<Option<String>, RouteError>(None)
        },
    }
}

/// The view of a rendering outcome.
pub open spec fn output_view(rendered: Result<String, String>) -> Option<Seq<char>> {
    match rendered {
        Ok(s) => Some(s@),
        Err(_) => None,
    }
}

/// Turns the outcome of rendering `template` into the attribute's value.
pub fn attribute_from_rendered(
    template: &str,
    rendered: Result<String, String>,
    required: bool,
) -> (r: Result<Option<String>, RouteError>)
    ensures
        attribute_result(r, template@, output_view(rendered), required),
        required ==> (rendered matches Err(m) ==> (r matches Err(
            RouteError::RequiredAttributeRender { message, .. },
        ) && message == m)),
{
    match rendered {
        Ok(value) => {
            if value.as_str().is_empty() {
                if required {
                    Err(RouteError::RequiredAttributeEmpty { template: template.to_owned() })
                } else {
                    Ok(None)
                }
            } else {
                Ok(Some(value))
            }
        },
        Err(message) => {
            if required {
                Err(RouteError::RequiredAttributeRender { template: template.to_owned(), message })
            } else {
                Ok(None)
            }
        },
    }
}

/// Renders an attribute template against the claims context.
///
/// An empty or failed rendering yields no value when the attribute is
/// optional, and an error naming the template when it is required.
pub fn render_attribute_template(template: &str, ctx: &ClaimsContext, required: bool) -> (r: Result<
    Option<String>,
    RouteError,
>)
    ensures
        attribute_result(r, template@, rendered(template@, *ctx), required),
{
    let out = render_template(template, ctx);
    attribute_from_rendered(template, out, required)
}

} // verus!
