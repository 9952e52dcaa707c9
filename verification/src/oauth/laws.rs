//! How a login makes headway, when a token can be used, and what the texts that a
//! login sends and keeps are made of.

use vstd::prelude::*;

use crate::encoding::{base64_url, form_text, url_safe};
use crate::json::{unsigned_field, Json};
use crate::oauth::callback::{delivers, is_answer, open_after, page, Request};
use crate::oauth::discovery::{configuration_url, url_view, OAuthError, OidcEndpoints};
use crate::oauth::flow::{
    authorization_params, authorization_url, challenge_of, exchange_params, form, is_token_text,
    lifetime, pair_text, pair_views, port_view, OAuthFlow, Pair,
};
use crate::oauth::login::{
    action_on, login_step, state_after, LoginAction, LoginActionView, LoginEvent, LoginState,
    LoginStateView,
};
use crate::oauth::token::{
    cache_file, cache_key, expiry_in_calendar, fresh, hex, sha256, signed, usable, Timestamp,
    TokenData,
};
use crate::text::{join, texts};

verus! {

/// A login that finds no token, or one that has expired, asks for the addresses of
/// the host. One that finds a token that lasts longer ends with its text.
pub proof fn law_login_begins(token: Option<TokenData>, now: Timestamp)
    ensures
        ({
            let (state, action) = login_step(
                LoginStateView::Looking,
                LoginEvent::Kept { token, now },
            );
            match token {
                None => state is Discovering && action is Discover,
                Some(t) => match t.expires_at {
                    None => state is Done && action == LoginActionView::Finish(
                        Ok(t.access_token@),
                    ),
                    Some(at) => if at.secs > now.secs || at.secs == now.secs && at.nanos
                        > now.nanos {
                        state is Done && action == LoginActionView::Finish(Ok(t.access_token@))
                    } else {
                        state is Discovering && action is Discover
                    },
                },
            }
        }),
{
}

/// An event that belongs to the state of a login moves it on: something is done, and
/// the state changes. Any other event changes nothing, and nothing is done.
pub proof fn law_login_makes_headway(state: LoginStateView, event: LoginEvent)
    ensures
        (state is Looking && event is Kept) || (state is Discovering && event is Discovered) || (
        state is LoggingIn && event is LoggedIn) || (state is Saving && event is Saved) ==> !(
        login_step(state, event).1 is Ignore) && login_step(state, event).0 != state,
        !((state is Looking && event is Kept) || (state is Discovering && event is Discovered) || (
        state is LoggingIn && event is LoggedIn) || (state is Saving && event is Saved))
            ==> login_step(state, event).1 is Ignore && login_step(state, event).0 == state,
{
}

/// A login without a token at hand goes through four events: the addresses are asked
/// for, the user logs in with just those addresses, the token that comes of it is
/// saved, and its text is what the login ends with.
pub proof fn law_login_runs_to_its_token(
    kept: Option<TokenData>,
    now: Timestamp,
    endpoints: OidcEndpoints,
    token: TokenData,
)
    requires
        kept matches Some(t) ==> t.expires_at is Some && (t.expires_at->0.secs < now.secs || (
        t.expires_at->0.secs == now.secs && t.expires_at->0.nanos <= now.nanos)),
    ensures
        ({
            let events = seq![
                LoginEvent::Kept { token: kept, now },
                LoginEvent::Discovered(Ok(endpoints)),
                LoginEvent::LoggedIn(Ok(token)),
                LoginEvent::Saved(Ok(())),
            ];
            &&& action_on(events, 0) is Discover
            &&& action_on(events, 1) == LoginActionView::LogIn(endpoints)
            &&& action_on(events, 2) == LoginActionView::Save(token)
            &&& action_on(events, 3) == LoginActionView::Finish(Ok(token.access_token@))
            &&& state_after(events, 4) is Done
        }),
{
    let events = seq![
        LoginEvent::Kept { token: kept, now },
        LoginEvent::Discovered(Ok(endpoints)),
        LoginEvent::LoggedIn(Ok(token)),
        LoginEvent::Saved(Ok(())),
    ];
    assert(state_after(events, 0) is Looking);
    assert(state_after(events, 1) is Discovering);
    assert(state_after(events, 2) is LoggingIn);
    assert(state_after(events, 3) == LoginStateView::Saving { access_token: token.access_token@ });
    assert(state_after(events, 4) is Done);
}

/// Whatever fails, the login ends with the reason of that failure, and does not go on.
pub proof fn law_failed_steps_end_the_login(
    reason: String,
    access_token: Seq<char>,
)
    ensures
        forall|state: LoginStateView|
            state is Discovering ==> #[trigger] login_step(
                state,
                LoginEvent::Discovered(Err(reason)),
            ) == (LoginStateView::Done, LoginActionView::Finish(Err(reason@))),
        forall|state: LoginStateView|
            state is LoggingIn ==> #[trigger] login_step(state, LoginEvent::LoggedIn(Err(reason)))
                == (LoginStateView::Done, LoginActionView::Finish(Err(reason@))),
        login_step(
            LoginStateView::Saving { access_token },
            LoginEvent::Saved(Err(reason)),
        ) == (LoginStateView::Done, LoginActionView::Finish(Err(reason@))),
{
}

/// The views of states and actions tell all of what they hold.
pub proof fn law_login_views_are_faithful(s: LoginState, a: LoginAction)
    ensures
        s is Looking <==> s@ is Looking,
        s is Discovering <==> s@ is Discovering,
        s is LoggingIn <==> s@ is LoggingIn,
        s is Done <==> s@ is Done,
        s is Saving <==> s@ is Saving,
        s matches LoginState::Saving { access_token } ==> s@ == (LoginStateView::Saving {
            access_token: access_token@,
        }),
        a is Discover <==> a@ is Discover,
        a is Ignore <==> a@ is Ignore,
        a matches LoginAction::LogIn(endpoints) ==> a@ == LoginActionView::LogIn(endpoints),
        a matches LoginAction::Save(token) ==> a@ == LoginActionView::Save(token),
        a matches LoginAction::Finish(Ok(text)) ==> a@ == LoginActionView::Finish(Ok(text@)),
        a matches LoginAction::Finish(Err(e)) ==> a@ == LoginActionView::Finish(Err(e@)),
{
}

/// Of two moments one lies behind the other exactly where more nanoseconds have passed
/// since the Unix epoch.
pub proof fn law_moments_are_ordered_by_nanoseconds(a: Timestamp, b: Timestamp)
    requires
        a.nanos < 1_000_000_000,
        b.nanos < 1_000_000_000,
    ensures
        a.is_after(b) <==> a.secs * 1_000_000_000 + a.nanos > b.secs * 1_000_000_000 + b.nanos,
{
}

/// A token can be used where it is there and has no expiry or one that lies ahead. It
/// is handed on as it is.
pub proof fn law_usable_tokens_have_not_expired(token: TokenData, now: Timestamp)
    requires
        token.expires_at matches Some(at) ==> at.nanos < 1_000_000_000,
        now.nanos < 1_000_000_000,
    ensures
        usable(None, now) is None,
        usable(Some(token), now) is Some <==> match token.expires_at {
            None => true,
            Some(at) => at.secs * 1_000_000_000 + at.nanos > now.secs * 1_000_000_000 + now.nanos,
        },
        usable(Some(token), now) matches Some(t) ==> t == token,
        fresh(token.expires_at, now) <==> usable(Some(token), now) is Some,
{
}

/// A lifetime as a signed number is the same number, or the one that is 2 to the power
/// of 64 less where that alone is in the range of signed numbers.
pub proof fn law_lifetimes_are_read_as_signed_numbers(n: u64)
    ensures
        i64::MIN <= signed(n) <= i64::MAX,
        signed(n) == n || signed(n) == n - 18_446_744_073_709_551_616,
{
}

/// The value of a hexadecimal digit with small letters.
pub open spec fn hex_value(c: char) -> int {
    if '0' <= c <= '9' {
        c as int - '0' as int
    } else {
        c as int - 'a' as int + 10
    }
}

/// The hexadecimal text of bytes has two digits for each, in small letters, and each
/// byte can be read from its two digits.
pub proof fn law_bytes_can_be_read_from_their_digits(bytes: Seq<u8>)
    ensures
        hex(bytes).len() == 2 * bytes.len(),
        forall|i: int|
            0 <= i < hex(bytes).len() ==> '0' <= #[trigger] hex(bytes)[i] <= '9' || 'a' <= hex(
                bytes,
            )[i] <= 'f',
        forall|i: int|
            0 <= i < bytes.len() ==> #[trigger] bytes[i] == 16 * hex_value(hex(bytes)[2 * i])
                + hex_value(hex(bytes)[2 * i + 1]),
    decreases bytes.len(),
{
    if bytes.len() > 0 {
        let init = bytes.drop_last();
        law_bytes_can_be_read_from_their_digits(init);
        let before = hex(init);
        let all = hex(bytes);
        assert(all.len() == before.len() + 2);
        assert forall|i: int| 0 <= i < all.len() implies '0' <= #[trigger] all[i] <= '9' || 'a'
            <= all[i] <= 'f' by {
            if i < before.len() {
                assert(all[i] == before[i]);
            }
        }
        assert forall|i: int| 0 <= i < bytes.len() implies #[trigger] bytes[i] == 16 * hex_value(
            all[2 * i],
        ) + hex_value(all[2 * i + 1]) by {
            if i < init.len() {
                assert(init[i] == bytes[i]);
                assert(all[2 * i] == before[2 * i]);
                assert(all[2 * i + 1] == before[2 * i + 1]);
            }
        }
    }
}

/// The file of a token is named by the digits of the digest, with the ending of JSON
/// files.
pub proof fn law_token_files_are_json(digest: Seq<u8>)
    ensures
        cache_file(digest).len() == 2 * digest.len() + 5,
        cache_file(digest).take(2 * digest.len() as int) == hex(digest),
        cache_file(digest).skip(2 * digest.len() as int) == ".json"@,
{
    reveal_strlit(".json");
    law_bytes_can_be_read_from_their_digits(digest);
    assert(cache_file(digest).take(2 * digest.len() as int) =~= hex(digest));
    assert(cache_file(digest).skip(2 * digest.len() as int) =~= ".json"@);
}

/// What a kept token is told from others by is the host, the client and, with commas
/// between them, all the scopes.
pub proof fn law_tokens_are_told_apart_by_all_scopes(
    host: Seq<char>,
    client_id: Seq<char>,
    scopes: Seq<Seq<char>>,
    scope: Seq<char>,
)
    ensures
        cache_key(host, client_id, Seq::empty()) == host + client_id,
        cache_key(host, client_id, seq![scope]) == host + client_id + scope,
        scopes.len() > 0 ==> cache_key(host, client_id, scopes.push(scope)) == cache_key(
            host,
            client_id,
            scopes,
        ) + seq![','] + scope,
{
    reveal_strlit(",");
    assert(cache_key(host, client_id, Seq::empty()) =~= host + client_id);
    assert(seq![scope].drop_last() =~= Seq::<Seq<char>>::empty());
    assert(scopes.push(scope).drop_last() =~= scopes);
    if scopes.len() > 0 {
        assert(cache_key(host, client_id, scopes.push(scope)) =~= cache_key(
            host,
            client_id,
            scopes,
        ) + seq![','] + scope);
    }
}

/// The browser is sent to the authorization address, with the seven things that it
/// is given behind a question mark: that a code is asked for, the client, where to
/// come back to, the scopes, the state, and the challenge with its kind.
pub proof fn law_browser_is_given_the_login(flow: OAuthFlow, challenge: Seq<char>)
    ensures
        ({
            let given = authorization_params(flow, challenge);
            &&& given.len() == 7
            &&& given[0] == ("response_type"@, "code"@)
            &&& given[1] == ("client_id"@, flow.client_id@)
            &&& given[2] == ("redirect_uri"@, flow.redirect_url@)
            &&& given[3].0 == "scope"@
            &&& given[3].1 == join(texts(flow.scopes@), seq![' '])
            &&& given[4] == ("state"@, flow.state@)
            &&& given[5] == ("code_challenge"@, challenge)
            &&& given[6] == ("code_challenge_method"@, "S256"@)
        }),
        ({
            let address = flow.endpoints.authorization_endpoint@;
            let url = authorization_url(flow, challenge);
            &&& url.len() > address.len()
            &&& url.take(address.len() as int) == address
            &&& url[address.len() as int] == '?'
            &&& url.skip(address.len() as int + 1) == form(authorization_params(flow, challenge))
        }),
{
    reveal_strlit("?");
    reveal_strlit(" ");
    assert(" "@ =~= seq![' ']);
    let address = flow.endpoints.authorization_endpoint@;
    let url = authorization_url(flow, challenge);
    assert(url.take(address.len() as int) =~= address);
    assert(url.skip(address.len() as int + 1) =~= form(authorization_params(flow, challenge)));
}

/// The names and values of a form stand one behind the other: an equals sign between
/// a name and its value, an ampersand between two pairs.
pub proof fn law_forms_hold_each_pair(pairs: Seq<Pair>, pair: Pair)
    ensures
        form(Seq::empty()) == Seq::<char>::empty(),
        form(seq![pair]) == form_text(pair.0) + seq!['='] + form_text(pair.1),
        pairs.len() > 0 ==> form(pairs.push(pair)) == form(pairs) + seq!['&'] + form_text(pair.0)
            + seq!['='] + form_text(pair.1),
{
    let f = |p: Pair| pair_text(p);
    assert(Seq::<Pair>::empty().map_values(f) =~= Seq::empty());
    assert(form(Seq::empty()) =~= Seq::<char>::empty());
    let one = seq![pair].map_values(f);
    assert(one.drop_last() =~= Seq::empty());
    assert(one.len() == 1 && one[0] == pair_text(pair));
    assert(form(seq![pair]) =~= form_text(pair.0) + seq!['='] + form_text(pair.1));
    if pairs.len() > 0 {
        let all = pairs.push(pair).map_values(f);
        assert(all.drop_last() =~= pairs.map_values(f));
        assert(form(pairs.push(pair)) =~= form(pairs) + seq!['&'] + form_text(pair.0) + seq!['=']
            + form_text(pair.1));
    }
}

/// The token address is given five things: that a code is exchanged, the code, where
/// the browser came back to, the secret and the client.
pub proof fn law_exchange_hands_over_the_code(flow: OAuthFlow, code: Seq<char>)
    ensures
        ({
            let given = exchange_params(flow, code);
            &&& given.len() == 5
            &&& given[0] == ("grant_type"@, "authorization_code"@)
            &&& given[1] == ("code"@, code)
            &&& given[2] == ("redirect_uri"@, flow.redirect_url@)
            &&& given[3] == ("code_verifier"@, flow.verifier@)
            &&& given[4] == ("client_id"@, flow.client_id@)
        }),
        challenge_of(flow.verifier@) == base64_url(
            sha256(vstd::utf8::encode_utf8(flow.verifier@)),
        ),
{
}

/// The views of names and values, of a port and of an address hold what those hold.
pub proof fn law_flow_views_are_faithful(
    pairs: Seq<(&str, &str)>,
    port: Result<Option<u16>, String>,
    url: Result<String, OAuthError>,
)
    ensures
        pair_views(pairs).len() == pairs.len(),
        forall|i: int|
            0 <= i < pairs.len() ==> #[trigger] pair_views(pairs)[i] == (
                pairs[i].0@,
                pairs[i].1@,
            ),
        match port {
            Ok(p) => port_view(port) == Ok::<Option<u16>, Seq<char>>(p),
            Err(e) => port_view(port) == Err::<Option<u16>, Seq<char>>(e@),
        },
        match url {
            Ok(u) => url_view(url) == Ok::<Seq<char>, OAuthError>(u@),
            Err(e) => url_view(url) == Err::<Seq<char>, OAuthError>(e),
        },
{
}

/// A text that is fit for a login has its length, and each of its characters can stand
/// in a URL as it is.
pub proof fn law_login_texts_are_url_safe(s: Seq<char>, length: int, c: char)
    ensures
        is_token_text(s, length) <==> s.len() == length && forall|i: int|
            0 <= i < s.len() ==> url_safe(#[trigger] s[i]),
        url_safe(c) <==> 'a' <= c <= 'z' || 'A' <= c <= 'Z' || '0' <= c <= '9' || c == '-' || c
            == '_',
{
}

/// A token lasts as long as the reply says, or an hour where it does not say it.
pub proof fn law_tokens_last_as_long_as_the_reply_says(body: Json)
    ensures
        match unsigned_field(body, "expires_in"@) {
            Some(n) => lifetime(body) == n,
            None => lifetime(body) == 3600,
        },
{
}

/// A request answers a login where it brings a code and just the state of the login.
/// While the login is waited for, such a request, and no other, makes its code be
/// handed over. Every other request is shown a page that says why.
pub proof fn law_requests_are_answered_by_what_they_bring(
    state: Seq<char>,
    open: bool,
    request: Request,
)
    ensures
        is_answer(state, request) <==> request.code is Some && request.state is Some
            && request.state->0@ == state,
        delivers(state, open, request) <==> open && request.code is Some && request.state is Some
            && request.state->0@ == state,
        request.code is None || request.state is None ==> page(state, request)
            == "<h2>Error</h2><p>Authentication failed.</p>"@,
        request.code is Some && request.state is Some && request.state->0@ != state ==> page(
            state,
            request,
        ) == "<h2>Error</h2><p>State mismatch.</p>"@,
        request.code is Some && request.state is Some && request.state->0@ == state ==> page(
            state,
            request,
        ) == "<h2>Error</h2><p>Authentication already completed.</p>"@,
{
}

/// A login is waited for until the first request that answers it, and never again.
pub proof fn law_login_is_waited_for_until_it_is_answered(
    state: Seq<char>,
    requests: Seq<Request>,
    n: int,
)
    requires
        0 <= n < requests.len(),
    ensures
        open_after(state, requests, 0),
        open_after(state, requests, n + 1) <==> open_after(state, requests, n) && !(
        requests[n].code is Some && requests[n].state is Some && requests[n].state->0@ == state),
{
}

/// The address of the configuration is the one that was made of the host and of the
/// path. Without a host it is the host that is complained about, otherwise the address.
pub proof fn law_configuration_needs_host_and_address(
    host: Option<Seq<char>>,
    joined: Option<Seq<char>>,
)
    ensures
        configuration_url(host, joined) is Ok <==> host is Some && joined is Some,
        configuration_url(host, joined) matches Ok(url) ==> joined == Some(url),
        host is None ==> configuration_url(host, joined) == Err::<Seq<char>, OAuthError>(
            OAuthError::InvalidHost,
        ),
        host is Some && joined is None ==> configuration_url(host, joined) == Err::<
            Seq<char>,
            OAuthError,
        >(OAuthError::InvalidOidcUrl),
{
}

/// The text of an error ends with the address or the reason that came with it.
pub proof fn law_login_errors_give_their_reason(reason: String)
    ensures
        OAuthError::InvalidRedirect(reason).text() == reason@,
        OAuthError::NoConfiguration(reason).text().take(38)
            == "Failed to get OIDC configuration from "@,
        OAuthError::NoConfiguration(reason).text().skip(38) == reason@,
        OAuthError::ExchangeFailed(reason).text().take(35)
            == "Failed to exchange code for token: "@,
        OAuthError::ExchangeFailed(reason).text().skip(35) == reason@,
        OAuthError::InvalidHost.text() == "Invalid host URL"@,
        OAuthError::InvalidOidcUrl.text() == "Invalid OIDC URL"@,
        OAuthError::NoAuthorizationEndpoint.text()
            == "authorization_endpoint not found in OIDC configuration"@,
        OAuthError::NoTokenEndpoint.text() == "token_endpoint not found in OIDC configuration"@,
        OAuthError::NoAccessToken.text() == "access_token not found in token response"@,
        OAuthError::TimedOut.text() == "Authentication timed out"@,
{
    reveal_strlit("Failed to get OIDC configuration from ");
    reveal_strlit("Failed to exchange code for token: ");
    let a = OAuthError::NoConfiguration(reason).text();
    assert(a.take(38) =~= "Failed to get OIDC configuration from "@);
    assert(a.skip(38) =~= reason@);
    let b = OAuthError::ExchangeFailed(reason).text();
    assert(b.take(35) =~= "Failed to exchange code for token: "@);
    assert(b.skip(35) =~= reason@);
}

/// A moment can be moved by a lifetime exactly where it and the moment that many seconds
/// later lie within the calendar and the lifetime is not too long to be counted in
/// milliseconds.
pub proof fn law_expiries_lie_within_the_calendar(now: Timestamp, expires_in: u64)
    ensures
        expiry_in_calendar(now, expires_in) <==> now.nanos < 1_000_000_000
            && -8_334_601_228_800 <= now.secs <= 8_210_266_876_799 && -9_223_372_036_854_775
            <= signed(expires_in) <= 9_223_372_036_854_775 && -8_334_601_228_800 <= now.secs
            + signed(expires_in) <= 8_210_266_876_799,
{
}

} // verus!
