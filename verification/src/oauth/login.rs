//! The steps of getting an access token: the one that is kept, or else that of a new
//! login, which is kept for the next time.

use vstd::prelude::*;

use crate::oauth::discovery::OidcEndpoints;
use crate::oauth::token::{if_usable, usable, Timestamp, TokenData};

verus! {

/// How far a login has come.
#[derive(Debug)]
pub enum LoginState {
    Looking,
    Discovering,
    LoggingIn,
    Saving { access_token: String },
    Done,
}

/// What happens in the course of a login. Whatever fails comes with the reason.
#[derive(Debug)]
pub enum LoginEvent {
    Kept { token: Option<TokenData>, now: Timestamp },
    Discovered(Result<OidcEndpoints, String>),
    LoggedIn(Result<TokenData, String>),
    Saved(Result<(), String>),
}

/// What is to be done next in the course of a login.
#[derive(Debug)]
pub enum LoginAction {
    Discover,
    LogIn(OidcEndpoints),
    Save(TokenData),
    Finish(Result<String, String>),
    Ignore,
}

/// The view of a [`LoginState`].
pub enum LoginStateView {
    Looking,
    Discovering,
    LoggingIn,
    Saving { access_token: Seq<char> },
    Done,
}

/// The view of a [`LoginAction`].
pub enum LoginActionView {
    Discover,
    LogIn(OidcEndpoints),
    Save(TokenData),
    Finish(Result<Seq<char>, Seq<char>>),
    Ignore,
}

impl View for LoginState {
    type V = LoginStateView;

    open spec fn view(&self) -> LoginStateView {
        match *self {
            LoginState::Looking => LoginStateView::Looking,
            LoginState::Discovering => LoginStateView::Discovering,
            LoginState::LoggingIn => LoginStateView::LoggingIn,
            LoginState::Saving { access_token } => LoginStateView::Saving {
                access_token: access_token@,
            },
            LoginState::Done => LoginStateView::Done,
        }
    }
}

impl View for LoginAction {
    type V = LoginActionView;

    open spec fn view(&self) -> LoginActionView {
        match *self {
            LoginAction::Discover => LoginActionView::Discover,
            LoginAction::LogIn(endpoints) => LoginActionView::LogIn(endpoints),
            LoginAction::Save(token) => LoginActionView::Save(token),
            LoginAction::Finish(Ok(text)) => LoginActionView::Finish(Ok(text@)),
            LoginAction::Finish(Err(e)) => LoginActionView::Finish(Err(e@)),
            LoginAction::Ignore => LoginActionView::Ignore,
        }
    }
}

/// The login ends with a failure.
pub open spec fn failed(e: Seq<char>) -> (LoginStateView, LoginActionView) {
    (LoginStateView::Done, LoginActionView::Finish(Err(e)))
}

/// The next step of a login. A token that is kept and can still be used ends it. Else
/// the addresses of the host are found out, the user logs in, the token is saved, and
/// then handed out. Whatever fails ends the login. An event that does not belong to
/// the state changes nothing.
pub open spec fn login_step(state: LoginStateView, event: LoginEvent) -> (
    LoginStateView,
    LoginActionView,
) {
    match (state, event) {
        (LoginStateView::Looking, LoginEvent::Kept { token, now }) => match usable(token, now) {
            Some(t) => (LoginStateView::Done, LoginActionView::Finish(Ok(t.access_token@))),
            None => (LoginStateView::Discovering, LoginActionView::Discover),
        },
        (LoginStateView::Discovering, LoginEvent::Discovered(Ok(endpoints))) => (
            LoginStateView::LoggingIn,
            LoginActionView::LogIn(endpoints),
        ),
        (LoginStateView::Discovering, LoginEvent::Discovered(Err(e))) => failed(e@),
        (LoginStateView::LoggingIn, LoginEvent::LoggedIn(Ok(token))) => (
            LoginStateView::Saving { access_token: token.access_token@ },
            LoginActionView::Save(token),
        ),
        (LoginStateView::LoggingIn, LoginEvent::LoggedIn(Err(e))) => failed(e@),
        (LoginStateView::Saving { access_token }, LoginEvent::Saved(Ok(_))) => (
            LoginStateView::Done,
            LoginActionView::Finish(Ok(access_token)),
        ),
        (LoginStateView::Saving { .. }, LoginEvent::Saved(Err(e))) => failed(e@),
        _ => (state, LoginActionView::Ignore),
    }
}

/// The next step of a login.
pub fn next_login(state: LoginState, event: LoginEvent) -> (r: (LoginState, LoginAction))
    ensures
        (r.0@, r.1@) == login_step(state@, event),
{
    match (state, event) {
        (LoginState::Looking, LoginEvent::Kept { token, now }) => match if_usable(token, now) {
            Some(t) => (LoginState::Done, LoginAction::Finish(Ok(t.access_token))),
            None => (LoginState::Discovering, LoginAction::Discover),
        },
        (LoginState::Discovering, LoginEvent::Discovered(Ok(endpoints))) => (
            LoginState::LoggingIn,
            LoginAction::LogIn(endpoints),
        ),
        (LoginState::Discovering, LoginEvent::Discovered(Err(e))) => (
            LoginState::Done,
            LoginAction::Finish(Err(e)),
        ),
        (LoginState::LoggingIn, LoginEvent::LoggedIn(Ok(token))) => (
            LoginState::Saving { access_token: token.access_token.clone() },
            LoginAction::Save(token),
        ),
        (LoginState::LoggingIn, LoginEvent::LoggedIn(Err(e))) => (
            LoginState::Done,
            LoginAction::Finish(Err(e)),
        ),
        (LoginState::Saving { access_token }, LoginEvent::Saved(Ok(_))) => (
            LoginState::Done,
            LoginAction::Finish(Ok(access_token)),
        ),
        (LoginState::Saving { .. }, LoginEvent::Saved(Err(e))) => (
            LoginState::Done,
            LoginAction::Finish(Err(e)),
        ),
        (state, _) => (state, LoginAction::Ignore),
    }
}

/// The state of a login after its first events.
pub open spec fn state_after(events: Seq<LoginEvent>, n: int) -> LoginStateView
    decreases n,
{
    if n <= 0 {
        LoginStateView::Looking
    } else {
        login_step(state_after(events, n - 1), events[n - 1]).0
    }
}

/// What is done on an event of a login.
pub open spec fn action_on(events: Seq<LoginEvent>, i: int) -> LoginActionView {
    login_step(state_after(events, i), events[i]).1
}

proof fn lemma_done_stays(events: Seq<LoginEvent>, m: int, n: int)
    requires
        0 <= m <= n,
        state_after(events, m) is Done,
    ensures
        state_after(events, n) is Done,
    decreases n - m,
{
    if m < n {
        lemma_done_stays(events, m, n - 1);
    }
}

/// Once a login is finished, with a token or with a failure, nothing is done any more,
/// whatever happens; above all, nothing is saved.
pub proof fn law_finished_logins_do_nothing(events: Seq<LoginEvent>, i: int, j: int)
    requires
        0 <= i < j < events.len(),
        action_on(events, i) is Finish,
    ensures
        action_on(events, j) is Ignore,
{
    assert(state_after(events, i + 1) is Done);
    lemma_done_stays(events, i + 1, j);
}

/// A token that is kept and can still be used ends the login with its text, and
/// nothing else is done.
pub proof fn law_kept_token_ends_the_login(
    events: Seq<LoginEvent>,
    token: TokenData,
    now: Timestamp,
    j: int,
)
    requires
        0 < j < events.len(),
        events[0] == (LoginEvent::Kept { token: Some(token), now }),
        usable(Some(token), now) is Some,
    ensures
        action_on(events, 0) == LoginActionView::Finish(Ok(token.access_token@)),
        action_on(events, j) is Ignore,
{
    law_finished_logins_do_nothing(events, 0, j);
}

proof fn lemma_saving_was_begun(events: Seq<LoginEvent>, n: int)
    requires
        0 <= n <= events.len(),
        state_after(events, n) is Saving,
    ensures
        exists|j: int|
            0 <= j < n && (#[trigger] action_on(events, j) matches LoginActionView::Save(token)
                && token.access_token@ == state_after(events, n)->access_token),
    decreases n,
{
    let before = state_after(events, n - 1);
    if before is Saving {
        lemma_saving_was_begun(events, n - 1);
        assert(state_after(events, n) == before);
    } else {
        assert(action_on(events, n - 1) is Save);
    }
}

/// A token is handed out only if it was kept and can still be used, or after it was
/// saved and saving it succeeded.
pub proof fn law_tokens_are_saved_before_they_are_handed_out(
    events: Seq<LoginEvent>,
    i: int,
    text: Seq<char>,
)
    requires
        0 <= i < events.len(),
        action_on(events, i) == LoginActionView::Finish(Ok(text)),
    ensures
        match events[i] {
            LoginEvent::Kept { token, now } => usable(token, now) matches Some(t)
                && t.access_token@ == text,
            LoginEvent::Saved(Ok(_)) => exists|j: int|
                0 <= j < i && (#[trigger] action_on(events, j) matches LoginActionView::Save(token)
                    && token.access_token@ == text),
            _ => false,
        },
{
    let before = state_after(events, i);
    if before is Saving {
        lemma_saving_was_begun(events, i);
    }
}

/// Whatever fails ends the login with that failure.
pub proof fn law_failures_end_the_login(events: Seq<LoginEvent>, i: int, e: Seq<char>)
    requires
        0 <= i < events.len(),
        action_on(events, i) == LoginActionView::Finish(Err(e)),
    ensures
        match events[i] {
            LoginEvent::Discovered(Err(m)) => m@ == e && state_after(events, i) is Discovering,
            LoginEvent::LoggedIn(Err(m)) => m@ == e && state_after(events, i) is LoggingIn,
            LoginEvent::Saved(Err(m)) => m@ == e && state_after(events, i) is Saving,
            _ => false,
        },
        forall|j: int| i < j < events.len() ==> #[trigger] action_on(events, j) is Ignore,
{
    assert forall|j: int| i < j < events.len() implies #[trigger] action_on(
        events,
        j,
    ) is Ignore by {
        law_finished_logins_do_nothing(events, i, j);
    }
}

} // verus!
