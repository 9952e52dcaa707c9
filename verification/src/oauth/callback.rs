//! What is answered when the browser comes back with the code of a login.

use vstd::prelude::*;

use crate::text::{opt_string, same_text};

verus! {

/// The page after a login.
pub const SUCCESS_PAGE: &'static str = "<h2>Login Success</h2><p>You can close this window</p>";

/// The page when the code was handed over before.
pub const COMPLETED_PAGE: &'static str =
    "<h2>Error</h2><p>Authentication already completed.</p>";

/// The page when the request belongs to another login.
pub const MISMATCH_PAGE: &'static str = "<h2>Error</h2><p>State mismatch.</p>";

/// The page when the request brings no code or no state.
pub const FAILED_PAGE: &'static str = "<h2>Error</h2><p>Authentication failed.</p>";

/// Waits for the one request that brings the code of a login.
#[derive(Debug)]
pub struct Callback {
    pub state: String,
    pub open: bool,
}

/// A request: the code and the state that it brings.
#[derive(Debug)]
pub struct Request {
    pub code: Option<String>,
    pub state: Option<String>,
}

/// What follows on a request: the code is handed over, or a page is shown.
#[derive(Debug)]
pub enum CallbackStep {
    Deliver(String),
    Show(&'static str),
}

/// The request brings a code, and the state of this login.
pub open spec fn is_answer(state: Seq<char>, request: Request) -> bool {
    request.code is Some && opt_string(request.state) == Some(state)
}

/// The request makes the code be handed over.
pub open spec fn delivers(state: Seq<char>, open: bool, request: Request) -> bool {
    open && is_answer(state, request)
}

/// The page that is shown where nothing is handed over.
pub open spec fn page(state: Seq<char>, request: Request) -> Seq<char> {
    if request.code is None || request.state is None {
        FAILED_PAGE@
    } else if request.state->0@ != state {
        MISMATCH_PAGE@
    } else {
        COMPLETED_PAGE@
    }
}

/// Whether the login is still waited for after the first requests.
pub open spec fn open_after(state: Seq<char>, requests: Seq<Request>, n: int) -> bool
    decreases n,
{
    if n <= 0 {
        true
    } else {
        open_after(state, requests, n - 1) && !delivers(
            state,
            open_after(state, requests, n - 1),
            requests[n - 1],
        )
    }
}

impl Callback {
    /// Waits for the code of the login with the given state.
    pub fn new(state: String) -> (c: Callback)
        ensures
            c.state == state,
            c.open,
    {
        Callback { state, open: true }
    }

    /// Takes in a request. The code of the first request with the right state is
    /// handed over; every other request is shown a page.
    pub fn receive(&mut self, request: Request) -> (step: CallbackStep)
        ensures
            final(self).state == old(self).state,
            final(self).open == (old(self).open && !delivers(
                old(self).state@,
                old(self).open,
                request,
            )),
            if delivers(old(self).state@, old(self).open, request) {
                step matches CallbackStep::Deliver(code) && code@ == request.code->0@
            } else {
                step matches CallbackStep::Show(text) && text@ == page(old(self).state@, request)
            },
    {
        let Request { code, state } = request;
        match (code, state) {
            (Some(code), Some(state)) => {
                if same_text(state.as_str(), self.state.as_str()) {
                    if self.open {
                        self.open = false;
                        CallbackStep::Deliver(code)
                    } else {
                        CallbackStep::Show(COMPLETED_PAGE)
                    }
                } else {
                    CallbackStep::Show(MISMATCH_PAGE)
                }
            },
            _ => CallbackStep::Show(FAILED_PAGE),
        }
    }
}

/// The page after the code was handed over, given whether somebody took it.
pub fn delivery_page(taken: bool) -> (text: &'static str)
    ensures
        text@ == if taken {
            SUCCESS_PAGE@
        } else {
            COMPLETED_PAGE@
        },
{
    if taken {
        SUCCESS_PAGE
    } else {
        COMPLETED_PAGE
    }
}

proof fn lemma_open_before(state: Seq<char>, requests: Seq<Request>, m: int, n: int)
    requires
        0 <= m <= n,
        open_after(state, requests, n),
    ensures
        open_after(state, requests, m),
    decreases n - m,
{
    if m < n {
        lemma_open_before(state, requests, m, n - 1);
    }
}

/// Whatever requests come, a code is handed over at most once, and it is that of the
/// first request that brings a code and the state of the login.
pub proof fn law_code_is_delivered_once(state: Seq<char>, requests: Seq<Request>, i: int)
    requires
        0 <= i < requests.len(),
    ensures
        delivers(state, open_after(state, requests, i), requests[i]) <==> is_answer(
            state,
            requests[i],
        ) && forall|j: int| 0 <= j < i ==> !is_answer(state, #[trigger] requests[j]),
    decreases i,
{
    if open_after(state, requests, i) {
        assert forall|j: int| 0 <= j < i implies !is_answer(state, #[trigger] requests[j]) by {
            lemma_open_before(state, requests, j + 1, i);
            lemma_open_before(state, requests, j, i);
        }
    } else if forall|j: int| 0 <= j < i ==> !is_answer(state, #[trigger] requests[j]) {
        lemma_closed(state, requests, i);
        assert(false);
    }
}

proof fn lemma_closed(state: Seq<char>, requests: Seq<Request>, n: int)
    requires
        !open_after(state, requests, n),
    ensures
        exists|j: int| 0 <= j < n && is_answer(state, #[trigger] requests[j]),
    decreases n,
{
    if n > 0 {
        if open_after(state, requests, n - 1) {
            assert(is_answer(state, requests[n - 1]));
        } else {
            lemma_closed(state, requests, n - 1);
        }
    }
}

} // verus!
