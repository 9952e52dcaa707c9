//! One login: the address that the browser is sent to, and the exchange of the code
//! that it brings back for a token.

use vstd::prelude::*;

use crate::encoding::{base64_url, encode_url, form_text, law_base64_url_is_url_safe, url_safe};
use crate::json::{string_field, unsigned_field, Json};
use crate::oauth::discovery::{OAuthError, OidcEndpoints};
use crate::oauth::token::{
    digest, expiry, expiry_in_calendar, sha256, signed, Timestamp, TokenData,
};
use crate::text::{appended, join, join_strings, texts};

verus! {

/// The number of characters of the state of a login.
pub const STATE_LENGTH: usize = 16;

/// The number of characters of the secret of a login.
pub const VERIFIER_LENGTH: usize = 64;

/// How long the browser is waited for, in seconds.
pub const LOGIN_TIMEOUT_SECS: u64 = 60;

/// The lifetime, in seconds, of a token that comes without one.
pub const DEFAULT_LIFETIME: u64 = 3600;

/// The port of a redirect address that names none.
pub const DEFAULT_PORT: u16 = 80;

/// One login.
#[derive(Debug)]
pub struct OAuthFlow {
    pub endpoints: OidcEndpoints,
    pub client_id: String,
    pub redirect_url: String,
    pub scopes: Vec<String>,
    pub state: String,
    pub verifier: String,
}

/// The text has the given length and can stand in a URL as it is.
pub open spec fn is_token_text(s: Seq<char>, length: int) -> bool {
    s.len() == length && forall|i: int| 0 <= i < s.len() ==> url_safe(#[trigger] s[i])
}

/// `nanoid::format` with the generator and the alphabet of `nanoid!` gives a random
/// text of the given length, in letters, digits, hyphens and underscores. It does not
/// return for the length zero.
#[verifier::external_body]
fn random_text(length: usize) -> (s: String)
    requires
        0 < length <= isize::MAX / 8,
    ensures
        is_token_text(s@, length as int),
{
    nanoid::format(nanoid::rngs::default, &nanoid::alphabet::SAFE, length)
}

/// A name and a value of a form.
pub type Pair = (Seq<char>, Seq<char>);

/// A name and a value as they are written in a URL.
pub open spec fn pair_text(pair: Pair) -> Seq<char> {
    form_text(pair.0) + seq!['='] + form_text(pair.1)
}

/// The names and values of a form, as they are written in a URL.
pub open spec fn form(pairs: Seq<Pair>) -> Seq<char> {
    join(pairs.map_values(|p: Pair| pair_text(p)), seq!['&'])
}

/// The texts of names and values.
pub open spec fn pair_views(pairs: Seq<(&str, &str)>) -> Seq<Pair> {
    pairs.map_values(|p: (&str, &str)| (p.0@, p.1@))
}

/// `serde_urlencoded::to_string` writes names and values as a URL-encoded form: each
/// name, an equals sign and its value, encoded, with an ampersand between neighbours.
/// For texts it does not fail.
#[verifier::external_body]
fn encode_form(pairs: &[(&str, &str)]) -> (s: String)
    ensures
        s@ == form(pair_views(pairs@)),
{
    serde_urlencoded::to_string(pairs).unwrap()
}

/// The port that a URL names, if it names one and is one; else why it is none.
pub uninterp spec fn port_of_url(url: Seq<char>) -> Result<Option<u16>, Seq<char>>;

/// The view of a port or of the reason why there is none.
pub open spec fn port_view(r: Result<Option<u16>, String>) -> Result<Option<u16>, Seq<char>> {
    match r {
        Ok(p) => Ok(p),
        Err(e) => Err(e@),
    }
}

/// `url::Url::port` gives the port that a URL names, unless it is the usual one of
/// its scheme.
#[verifier::external_body]
fn port_named(url: &str) -> (r: Result<Option<u16>, String>)
    ensures
        port_view(r) == port_of_url(url@),
{
    url::Url::parse(url).map(|u| u.port()).map_err(|e| e.to_string())
}

/// The port to wait at for the browser, given what the redirect address names.
pub fn port_or_default(named: Result<Option<u16>, String>) -> (r: Result<u16, OAuthError>)
    ensures
        match port_view(named) {
            Ok(Some(p)) => r == Ok::<u16, OAuthError>(p),
            Ok(None) => r == Ok::<u16, OAuthError>(DEFAULT_PORT),
            Err(e) => r matches Err(OAuthError::InvalidRedirect(m)) && m@ == e,
        },
        named == Ok::<Option<u16>, String>(None) ==> r == Ok::<u16, OAuthError>(80),
{
    match named {
        Ok(Some(p)) => Ok(p),
        Ok(None) => Ok(DEFAULT_PORT),
        Err(e) => Err(OAuthError::InvalidRedirect(e)),
    }
}

/// What the authorization address is given.
pub open spec fn authorization_params(flow: OAuthFlow, challenge: Seq<char>) -> Seq<Pair> {
    seq![
        ("response_type"@, "code"@),
        ("client_id"@, flow.client_id@),
        ("redirect_uri"@, flow.redirect_url@),
        ("scope"@, join(texts(flow.scopes@), " "@)),
        ("state"@, flow.state@),
        ("code_challenge"@, challenge),
        ("code_challenge_method"@, "S256"@),
    ]
}

/// The address that the browser is sent to, with a challenge.
pub open spec fn authorization_url(flow: OAuthFlow, challenge: Seq<char>) -> Seq<char> {
    flow.endpoints.authorization_endpoint@ + "?"@ + form(authorization_params(flow, challenge))
}

/// The challenge of a secret: its digest in the base64 of URLs.
pub open spec fn challenge_of(verifier: Seq<char>) -> Seq<char> {
    base64_url(sha256(vstd::utf8::encode_utf8(verifier)))
}

/// What the token address is given.
pub open spec fn exchange_params(flow: OAuthFlow, code: Seq<char>) -> Seq<Pair> {
    seq![
        ("grant_type"@, "authorization_code"@),
        ("code"@, code),
        ("redirect_uri"@, flow.redirect_url@),
        ("code_verifier"@, flow.verifier@),
        ("client_id"@, flow.client_id@),
    ]
}

/// The exchange shows the secret whose challenge the browser was sent with, and
/// names the same redirect address and the same client.
pub proof fn law_exchange_fits_the_authorization(flow: OAuthFlow, code: Seq<char>)
    ensures
        ({
            let sent = authorization_params(flow, challenge_of(flow.verifier@));
            let shown = exchange_params(flow, code);
            &&& sent.contains(("code_challenge"@, challenge_of(flow.verifier@)))
            &&& shown.contains(("code_verifier"@, flow.verifier@))
            &&& sent.contains(("redirect_uri"@, flow.redirect_url@)) && shown.contains(
                ("redirect_uri"@, flow.redirect_url@),
            )
            &&& sent.contains(("client_id"@, flow.client_id@)) && shown.contains(
                ("client_id"@, flow.client_id@),
            )
        }),
{
    let sent = authorization_params(flow, challenge_of(flow.verifier@));
    let shown = exchange_params(flow, code);
    assert(sent[5] == ("code_challenge"@, challenge_of(flow.verifier@)));
    assert(shown[3] == ("code_verifier"@, flow.verifier@));
    assert(sent[2] == ("redirect_uri"@, flow.redirect_url@));
    assert(shown[2] == ("redirect_uri"@, flow.redirect_url@));
    assert(sent[1] == ("client_id"@, flow.client_id@));
    assert(shown[4] == ("client_id"@, flow.client_id@));
}

/// What the request for a token gave.
#[derive(Debug)]
pub enum TokenReply {
    Refused(String),
    Body(Json),
}

/// The lifetime that a reply gives its token.
pub open spec fn lifetime(body: Json) -> u64 {
    match unsigned_field(body, "expires_in"@) {
        Some(n) => n,
        None => DEFAULT_LIFETIME,
    }
}

/// The lifetime that a reply gives its token.
pub fn token_lifetime(body: &Json) -> (n: u64)
    ensures
        n == lifetime(*body),
{
    match body.get_u64("expires_in") {
        Some(n) => n,
        None => DEFAULT_LIFETIME,
    }
}

impl OAuthFlow {
    /// A login with a fresh state and a fresh secret.
    pub fn new(
        endpoints: OidcEndpoints,
        client_id: String,
        redirect_url: String,
        scopes: Vec<String>,
    ) -> (f: OAuthFlow)
        ensures
            f.endpoints == endpoints,
            f.client_id == client_id,
            f.redirect_url == redirect_url,
            f.scopes == scopes,
            is_token_text(f.state@, STATE_LENGTH as int),
            is_token_text(f.verifier@, VERIFIER_LENGTH as int),
            f.state@.len() == 16,
            f.verifier@.len() == 64,
    {
        OAuthFlow {
            endpoints,
            client_id,
            redirect_url,
            scopes,
            state: random_text(STATE_LENGTH),
            verifier: random_text(VERIFIER_LENGTH),
        }
    }

    /// The challenge for the secret of the login: 43 characters that can stand in a
    /// URL as they are.
    pub fn challenge(&self) -> (c: String)
        ensures
            c@ == challenge_of(self.verifier@),
            is_token_text(c@, 43),
    {
        let d = digest(self.verifier.as_str().as_bytes());
        proof {
            law_base64_url_is_url_safe(d@);
        }
        encode_url(d.as_slice())
    }

    /// The address that the browser is sent to, with a challenge.
    pub fn url_with_challenge(&self, challenge: &str) -> (s: String)
        ensures
            s@ == authorization_url(*self, challenge@),
    {
        let scope = join_strings(self.scopes.as_slice(), " ");
        let mut params: Vec<(&str, &str)> = Vec::new();
        params.push(("response_type", "code"));
        params.push(("client_id", self.client_id.as_str()));
        params.push(("redirect_uri", self.redirect_url.as_str()));
        params.push(("scope", scope.as_str()));
        params.push(("state", self.state.as_str()));
        params.push(("code_challenge", challenge));
        params.push(("code_challenge_method", "S256"));
        proof {
            assert(pair_views(params@) =~= authorization_params(*self, challenge@));
        }
        let mut s = appended(self.endpoints.authorization_endpoint.as_str(), "?");
        s.append(encode_form(params.as_slice()).as_str());
        s
    }

    /// The address that the browser is sent to.
    pub fn get_authorization_url(&self) -> (s: String)
        ensures
            s@ == authorization_url(*self, challenge_of(self.verifier@)),
    {
        let challenge = self.challenge();
        self.url_with_challenge(challenge.as_str())
    }

    /// The names and values that the token address is given for a code.
    pub fn token_request<'a>(&'a self, code: &'a str) -> (params: Vec<(&'a str, &'a str)>)
        ensures
            pair_views(params@) == exchange_params(*self, code@),
    {
        let mut params: Vec<(&'a str, &'a str)> = Vec::new();
        params.push(("grant_type", "authorization_code"));
        params.push(("code", code));
        params.push(("redirect_uri", self.redirect_url.as_str()));
        params.push(("code_verifier", self.verifier.as_str()));
        params.push(("client_id", self.client_id.as_str()));
        proof {
            assert(pair_views(params@) =~= exchange_params(*self, code@));
        }
        params
    }

    /// The token that the reply to the request for it brings, where it brings one.
    pub fn exchange_code_for_token(&self, reply: &TokenReply, now: Timestamp) -> (r: Result<
        TokenData,
        OAuthError,
    >)
        requires
            match *reply {
                TokenReply::Refused(_) => true,
                TokenReply::Body(body) => string_field(body, "access_token"@) is Some
                    ==> expiry_in_calendar(now, lifetime(body)),
            },
        ensures
            match *reply {
                TokenReply::Refused(e) => r matches Err(OAuthError::ExchangeFailed(m)) && m@ == e@,
                TokenReply::Body(body) => match string_field(body, "access_token"@) {
                    None => r == Err::<TokenData, OAuthError>(OAuthError::NoAccessToken),
                    Some(token) => r matches Ok(t) && t.access_token@ == token && (
                    t.expires_at matches Some(at) && at.secs == now.secs + signed(lifetime(body))
                        && at.nanos == now.nanos),
                },
            },
    {
        match reply {
            TokenReply::Refused(e) => Err(OAuthError::ExchangeFailed(e.clone())),
            TokenReply::Body(body) => match body.get_str("access_token") {
                None => Err(OAuthError::NoAccessToken),
                Some(token) => {
                    let expires_at = expiry(now, token_lifetime(body));
                    Ok(
                        TokenData {
                            access_token: token.to_owned(),
                            expires_at: Some(expires_at),
                        },
                    )
                },
            },
        }
    }

    /// The port to wait at for the browser.
    pub fn callback_port(&self) -> (r: Result<u16, OAuthError>)
        ensures
            match port_of_url(self.redirect_url@) {
                Ok(Some(p)) => r == Ok::<u16, OAuthError>(p),
                Ok(None) => r == Ok::<u16, OAuthError>(DEFAULT_PORT),
                Err(e) => r matches Err(OAuthError::InvalidRedirect(m)) && m@ == e,
            },
    {
        port_or_default(port_named(self.redirect_url.as_str()))
    }
}

/// What the user is told where no browser can be opened.
pub fn browser_hint(url: &str) -> (s: String)
    ensures
        s@ == "Please open this URL in your browser:\n"@ + url@,
{
    appended("Please open this URL in your browser:\n", url)
}

} // verus!
