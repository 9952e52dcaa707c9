//! Where a host is asked for logins: the addresses that it publishes.

use vstd::prelude::*;

use crate::json::{string_field, Json};
use crate::text::{appended, opt_string};

verus! {

/// Why a login fails.
#[derive(Debug, PartialEq, Eq)]
pub enum OAuthError {
    InvalidHost,
    InvalidOidcUrl,
    NoConfiguration(String),
    NoAuthorizationEndpoint,
    NoTokenEndpoint,
    ExchangeFailed(String),
    NoAccessToken,
    InvalidRedirect(String),
    TimedOut,
}

impl OAuthError {
    /// The text of the error.
    pub open spec fn text(self) -> Seq<char> {
        match self {
            OAuthError::InvalidHost => "Invalid host URL"@,
            OAuthError::InvalidOidcUrl => "Invalid OIDC URL"@,
            OAuthError::NoConfiguration(url) => "Failed to get OIDC configuration from "@ + url@,
            OAuthError::NoAuthorizationEndpoint =>
                "authorization_endpoint not found in OIDC configuration"@,
            OAuthError::NoTokenEndpoint => "token_endpoint not found in OIDC configuration"@,
            OAuthError::ExchangeFailed(e) => "Failed to exchange code for token: "@ + e@,
            OAuthError::NoAccessToken => "access_token not found in token response"@,
            OAuthError::InvalidRedirect(e) => e@,
            OAuthError::TimedOut => "Authentication timed out"@,
        }
    }

    /// The message of the error.
    pub fn message(&self) -> (m: String)
        ensures
            m@ == self.text(),
    {
        match self {
            OAuthError::InvalidHost => "Invalid host URL".to_string(),
            OAuthError::InvalidOidcUrl => "Invalid OIDC URL".to_string(),
            OAuthError::NoConfiguration(url) => appended(
                "Failed to get OIDC configuration from ",
                url.as_str(),
            ),
            OAuthError::NoAuthorizationEndpoint =>
                "authorization_endpoint not found in OIDC configuration".to_string(),
            OAuthError::NoTokenEndpoint =>
                "token_endpoint not found in OIDC configuration".to_string(),
            OAuthError::ExchangeFailed(e) => appended(
                "Failed to exchange code for token: ",
                e.as_str(),
            ),
            OAuthError::NoAccessToken => "access_token not found in token response".to_string(),
            OAuthError::InvalidRedirect(e) => e.clone(),
            OAuthError::TimedOut => "Authentication timed out".to_string(),
        }
    }
}

/// Where the configuration of logins stands, seen from the host.
pub const CONFIGURATION_PATH: &'static str = "oidc/.well-known/oauth-authorization-server";

/// A text as a URL, in its normal form, if it is one.
pub uninterp spec fn parsed_url(s: Seq<char>) -> Option<Seq<char>>;

/// What a reference means, seen from a URL, in its normal form; none where the URL
/// is none or the reference has no meaning there.
pub uninterp spec fn joined_url(base: Seq<char>, reference: Seq<char>) -> Option<Seq<char>>;

/// `url::Url::parse` reads a text as a URL; the result is the URL in its normal form.
#[verifier::external_body]
fn parse_url(s: &str) -> (r: Option<String>)
    ensures
        opt_string(r) == parsed_url(s@),
{
    url::Url::parse(s).ok().map(|u| u.to_string())
}

/// `url::Url::join` reads a reference as it is meant within a URL; the result is the
/// URL that it means, in its normal form.
#[verifier::external_body]
fn join_url(base: &str, reference: &str) -> (r: Option<String>)
    ensures
        opt_string(r) == joined_url(base@, reference@),
{
    url::Url::parse(base).ok()?.join(reference).ok().map(|u| u.to_string())
}

/// The address of the configuration, given the host as a URL and the address seen
/// from it, as far as there are.
pub open spec fn configuration_url(
    host: Option<Seq<char>>,
    joined: Option<Seq<char>>,
) -> Result<Seq<char>, OAuthError> {
    match (host, joined) {
        (None, _) => Err(OAuthError::InvalidHost),
        (Some(_), None) => Err(OAuthError::InvalidOidcUrl),
        (Some(_), Some(url)) => Ok(url),
    }
}

/// The view of an address or of the reason why there is none.
pub open spec fn url_view(r: Result<String, OAuthError>) -> Result<Seq<char>, OAuthError> {
    match r {
        Ok(url) => Ok(url@),
        Err(e) => Err(e),
    }
}

/// The address of the configuration, given the host as a URL and the address seen
/// from it, as far as there are.
pub fn checked_oidc_url(host: Option<String>, joined: Option<String>) -> (r: Result<
    String,
    OAuthError,
>)
    ensures
        url_view(r) == configuration_url(opt_string(host), opt_string(joined)),
{
    if host.is_none() {
        return Err(OAuthError::InvalidHost);
    }
    match joined {
        Some(url) => Ok(url),
        None => Err(OAuthError::InvalidOidcUrl),
    }
}

/// The address at which a host publishes the configuration of logins.
pub fn oidc_url(host: &str) -> (r: Result<String, OAuthError>)
    ensures
        url_view(r) == configuration_url(
            parsed_url(host@),
            joined_url(host@, CONFIGURATION_PATH@),
        ),
{
    checked_oidc_url(parse_url(host), join_url(host, CONFIGURATION_PATH))
}

/// The addresses that a host publishes.
#[derive(Debug, PartialEq, Eq)]
pub struct OidcEndpoints {
    pub authorization_endpoint: String,
    pub token_endpoint: String,
}

/// What the request for the configuration gave.
#[derive(Debug)]
pub enum ConfigurationReply {
    Refused,
    Body(Json),
}

/// The addresses that a host publishes, read from its reply to the request for the
/// configuration at `oidc_url`.
pub fn get_workspace_endpoints(oidc_url: &str, reply: &ConfigurationReply) -> (r: Result<
    OidcEndpoints,
    OAuthError,
>)
    ensures
        match *reply {
            ConfigurationReply::Refused => r matches Err(OAuthError::NoConfiguration(url)) && url@
                == oidc_url@,
            ConfigurationReply::Body(body) => match (
                string_field(body, "authorization_endpoint"@),
                string_field(body, "token_endpoint"@),
            ) {
                (None, _) => r == Err::<OidcEndpoints, OAuthError>(
                    OAuthError::NoAuthorizationEndpoint,
                ),
                (Some(_), None) => r == Err::<OidcEndpoints, OAuthError>(
                    OAuthError::NoTokenEndpoint,
                ),
                (Some(a), Some(t)) => r matches Ok(e) && e.authorization_endpoint@ == a
                    && e.token_endpoint@ == t,
            },
        },
{
    match reply {
        ConfigurationReply::Refused => Err(OAuthError::NoConfiguration(oidc_url.to_owned())),
        ConfigurationReply::Body(body) => {
            let authorization_endpoint = match body.get_str("authorization_endpoint") {
                Some(a) => a.to_owned(),
                None => {
                    return Err(OAuthError::NoAuthorizationEndpoint);
                },
            };
            let token_endpoint = match body.get_str("token_endpoint") {
                Some(t) => t.to_owned(),
                None => {
                    return Err(OAuthError::NoTokenEndpoint);
                },
            };
            Ok(OidcEndpoints { authorization_endpoint, token_endpoint })
        },
    }
}

} // verus!
