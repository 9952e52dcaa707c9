//! What an interruption, a rewinding and a session file do, part by part.

use vstd::prelude::*;

use crate::message::{
    is_user_text, law_each_request_is_found, law_requests_of_joined_parts, refuses, requests_in,
    says, Message, MessageContent,
};
use crate::protocol::{Role, ToolErrorView};
use crate::session::{
    changed_at, ends_with_nothing, framed, interruption, is_session, most_recent, pending_requests,
    rewound, SessionEntry, SessionError,
};

verus! {

/// A message that says a text is from the given role and holds that text, and nothing
/// besides.
pub proof fn law_messages_hold_what_they_say(m: Message, role: Role, text: Seq<char>)
    ensures
        says(m, role, text) <==> m.role == role && m.content@.len() == 1
            && m.content@[0] is Text && m.content@[0]->Text_0@ == text,
        says(m, role, text) ==> (is_user_text(m) <==> role == Role::User),
{
    if says(m, role, text) {
        assert(m.content@[0] is Text);
    }
}

/// A message of the user is a text of the user as soon as one of its parts is a text.
/// Messages of the assistant, and messages without a text, are none.
pub proof fn law_one_text_makes_a_user_text(m: Message, k: int)
    requires
        0 <= k < m.content@.len(),
    ensures
        m.content@[k] is Text && m.role == Role::User ==> is_user_text(m),
        is_user_text(m) ==> m.role == Role::User && exists|i: int|
            0 <= i < m.content@.len() && (#[trigger] m.content@[i]) is Text,
{
    let part = m.content@[k];
}

proof fn lemma_no_requests(content: Seq<MessageContent>)
    requires
        forall|i: int| 0 <= i < content.len() ==> !((#[trigger] content[i]) is ToolRequest),
    ensures
        requests_in(content).len() == 0,
{
    law_each_request_is_found(content);
    if requests_in(content).len() > 0 {
        let r = requests_in(content)[0];
        assert(exists|k: int|
            0 <= k < content.len() && (#[trigger] content[k] matches MessageContent::ToolRequest {
                id,
                tool_call,
            } && id@ == r.id));
    }
}

/// After an interruption, each part of the last message that asked for a tool is
/// answered: where that message came from the assistant, the message behind it comes
/// from the user and holds an answer with the id of that part, which is an error.
/// There is one answer for each request and none for anything else.
pub proof fn law_interruption_answers_each_part(
    before: Seq<Message>,
    after: Seq<Message>,
    note: Option<Seq<char>>,
    k: int,
)
    requires
        interruption(before, after, note),
        before.len() > 0,
        before.last().role == Role::Assistant,
        0 <= k < before.last().content@.len(),
        before.last().content@[k] is ToolRequest,
    ensures
        after.len() == before.len() + 2,
        forall|i: int| 0 <= i < before.len() ==> #[trigger] after[i] == before[i],
        after[before.len() as int].role == Role::User,
        exists|j: int|
            0 <= j < after[before.len() as int].content@.len() && (
            #[trigger] after[before.len() as int].content@[j] matches MessageContent::ToolResponse {
                id,
                tool_result: Err(e),
            } && id@ == before.last().content@[k]->ToolRequest_id@ && e@
                == ToolErrorView::ExecutionError("Interrupted by the user to make a correction"@)),
        forall|j: int|
            0 <= j < after[before.len() as int].content@.len() ==> (
            #[trigger] after[before.len() as int].content@[j] matches MessageContent::ToolResponse {
                id,
                tool_result,
            } && exists|i: int|
                0 <= i < before.last().content@.len() && (
                #[trigger] before.last().content@[i]) is ToolRequest
                    && before.last().content@[i]->ToolRequest_id@ == id@),
        after[before.len() as int].content@.len() == requests_in(before.last().content@).len(),
        after.last().role == Role::Assistant,
        after.last().content@.len() == 1,
        after.last().content@[0] matches MessageContent::Text(t) && note == Some(t@),
{
    let content = before.last().content@;
    let requests = requests_in(content);
    law_each_request_is_found(content);
    let id = content[k]->ToolRequest_id@;
    assert(content[k] matches MessageContent::ToolRequest { id: i, tool_call } && i@ == id);
    let j = choose|j: int| 0 <= j < requests.len() && (#[trigger] requests[j]).id == id;
    assert(0 <= j < requests.len() && requests[j].id == id);
    let answers = after[before.len() as int].content@;
    assert(refuses(
        answers[j],
        requests[j].id,
        ToolErrorView::ExecutionError("Interrupted by the user to make a correction"@),
    ));
    assert forall|i: int| 0 <= i < before.len() implies #[trigger] after[i] == before[i] by {
        assert(after.take(before.len() as int)[i] == after[i]);
    }
    assert forall|n: int| 0 <= n < answers.len() implies (
    #[trigger] answers[n] matches MessageContent::ToolResponse { id: i, tool_result } && exists|
        m: int,
    |
        0 <= m < content.len() && (#[trigger] content[m]) is ToolRequest
            && content[m]->ToolRequest_id@ == i@) by {
        assert(refuses(
            answers[n],
            requests[n].id,
            ToolErrorView::ExecutionError("Interrupted by the user to make a correction"@),
        ));
        let m = choose|m: int|
            0 <= m < content.len() && (#[trigger] content[m] matches MessageContent::ToolRequest {
                id: i,
                tool_call,
            } && i@ == requests[n].id);
        assert(content[m] is ToolRequest);
    }
}

/// The answers to interrupted requests stand in the order of the requests: those of
/// the parts up to some place come first.
pub proof fn law_interruption_keeps_the_order_of_the_requests(
    before: Seq<Message>,
    after: Seq<Message>,
    note: Option<Seq<char>>,
    k: int,
)
    requires
        interruption(before, after, note),
        before.len() > 0,
        before.last().role == Role::Assistant,
        0 <= k < before.last().content@.len(),
        before.last().content@[k] is ToolRequest,
    ensures
        ({
            let n = requests_in(before.last().content@.take(k)).len() as int;
            &&& n < after[before.len() as int].content@.len()
            &&& after[before.len() as int].content@[n] matches MessageContent::ToolResponse {
                id,
                tool_result: Err(e),
            } && id@ == before.last().content@[k]->ToolRequest_id@
        }),
{
    let content = before.last().content@;
    let part = content[k];
    let rest = content.skip(k + 1);
    let n = requests_in(content.take(k)).len() as int;
    assert(content =~= content.take(k) + (seq![part] + rest));
    law_requests_of_joined_parts(content.take(k), seq![part] + rest, part);
    law_requests_of_joined_parts(seq![part], rest, part);
    assert(requests_in(content)[n].id == part->ToolRequest_id@);
    assert(pending_requests(before) == requests_in(content));
    assert(refuses(
        after[before.len() as int].content@[n],
        pending_requests(before)[n].id,
        ToolErrorView::ExecutionError("Interrupted by the user to make a correction"@),
    ));
}

/// The word to the user names the tool that the last request of the message asks
/// for; where that request could not be read, it speaks of a tool.
pub proof fn law_interruption_names_the_last_tool(
    before: Seq<Message>,
    after: Seq<Message>,
    note: Option<Seq<char>>,
    k: int,
)
    requires
        interruption(before, after, note),
        before.len() > 0,
        before.last().role == Role::Assistant,
        0 <= k < before.last().content@.len(),
        before.last().content@[k] is ToolRequest,
        forall|i: int|
            k < i < before.last().content@.len() ==> !((
            #[trigger] before.last().content@[i]) is ToolRequest),
    ensures
        note == Some(
            "We interrupted the existing call to "@ + (
            match before.last().content@[k]->ToolRequest_tool_call {
                Ok(call) => call.name@,
                Err(_) => "tool"@,
            }) + ". How would you like to proceed?"@,
        ),
{
    let content = before.last().content@;
    let part = content[k];
    let rest = content.skip(k + 1);
    assert forall|i: int| 0 <= i < rest.len() implies !((#[trigger] rest[i]) is ToolRequest) by {
        assert(rest[i] == content[k + 1 + i]);
    }
    lemma_no_requests(rest);
    assert(content =~= content.take(k) + seq![part] + rest);
    law_requests_of_joined_parts(content.take(k) + seq![part], rest, part);
    law_requests_of_joined_parts(content.take(k), seq![part], part);
    let found = requests_in(seq![part]);
    assert(requests_in(content) =~= requests_in(content.take(k)) + found);
    assert(requests_in(content).last() == found[0]);
}

/// Where the last message asks for no tool, an interruption leaves a conversation that
/// ends with the assistant as it is. After an answer of a tool it adds one message, in
/// which the assistant asks how to go on. Any other message of the user is taken back,
/// and nothing more.
pub proof fn law_interruption_without_requests(
    before: Seq<Message>,
    after: Seq<Message>,
    note: Option<Seq<char>>,
)
    requires
        interruption(before, after, note),
        !ends_with_nothing(before),
        before.len() > 0 && before.last().role == Role::Assistant ==> forall|i: int|
            0 <= i < before.last().content@.len() ==> !((
            #[trigger] before.last().content@[i]) is ToolRequest),
    ensures
        before.len() == 0 || before.last().role == Role::Assistant ==> after == before && note
            is None,
        before.len() > 0 && before.last().role == Role::User && before.last().content@[0]
            is ToolResponse ==> after.len() == before.len() + 1 && (forall|i: int|
            0 <= i < before.len() ==> #[trigger] after[i] == before[i]) && after.last().role
            == Role::Assistant && after.last().content@.len() == 1 && (
        after.last().content@[0] matches MessageContent::Text(t) && t@
            == "We interrupted the existing calls to tools. How would you like to proceed?"@
            && note == Some(t@)),
        before.len() > 0 && before.last().role == Role::User && !(before.last().content@[0]
            is ToolResponse) ==> after.len() == before.len() - 1 && (forall|i: int|
            0 <= i < after.len() ==> #[trigger] after[i] == before[i]) && note == Some(
            "We interrupted before the model replied and removed the last message."@,
        ),
{
    if before.len() > 0 && before.last().role == Role::Assistant {
        lemma_no_requests(before.last().content@);
    }
    assert(pending_requests(before).len() == 0);
    if before.len() > 0 && before.last().role == Role::User && before.last().content@[0]
        is ToolResponse {
        assert forall|i: int| 0 <= i < before.len() implies #[trigger] after[i] == before[i] by {
            assert(after.take(before.len() as int)[i] == after[i]);
        }
    }
}

/// A conversation ends with nothing exactly where its last message is one of the user
/// without any part.
pub proof fn law_only_an_empty_message_is_nothing(messages: Seq<Message>, m: Message)
    ensures
        ends_with_nothing(messages.push(m)) <==> m.role == Role::User && m.content@.len() == 0,
        !ends_with_nothing(Seq::empty()),
{
}

/// A message that is no text of the user does not change what rewinding gives.
/// Rewinding right behind a text of the user takes that text back, and nothing more.
pub proof fn law_rewind_by_one_message(messages: Seq<Message>, m: Message)
    ensures
        m.role == Role::Assistant ==> rewound(messages.push(m)) == rewound(messages),
        (forall|i: int| 0 <= i < m.content@.len() ==> !((#[trigger] m.content@[i]) is Text))
            ==> rewound(messages.push(m)) == rewound(messages),
        forall|i: int|
            0 <= i < m.content@.len() && m.role == Role::User && (
            #[trigger] m.content@[i]) is Text ==> rewound(messages.push(m)) == messages,
        rewound(Seq::empty()) == Seq::<Message>::empty(),
{
    assert(messages.push(m).drop_last() =~= messages);
}

/// A file is a session where its extension is `jsonl`. Such a file is the most recent
/// one where no session was changed after it, and no earlier one of the list at the
/// same time; a file whose time is not known counts as one of the Unix epoch.
pub proof fn law_most_recent_session_is_the_latest(entries: Seq<SessionEntry>, i: int, j: int)
    requires
        most_recent(entries, i),
        0 <= j < entries.len(),
        entries[j].extension is Some,
        entries[j].extension->0@ == "jsonl"@,
    ensures
        0 <= i < entries.len(),
        entries[i].extension is Some,
        entries[i].extension->0@ == "jsonl"@,
        ({
            let own: int = match entries[i].modified {
                Some(t) => t as int,
                None => 0,
            };
            let other: int = match entries[j].modified {
                Some(t) => t as int,
                None => 0,
            };
            other < own || other == own && i <= j
        }),
{
    assert(is_session(entries[j]));
    assert(changed_at(entries[j]) <= changed_at(entries[i]));
}

/// A file is no session without an extension or with another one than `jsonl`.
pub proof fn law_sessions_have_their_extension(e: SessionEntry)
    ensures
        is_session(e) <==> e.extension is Some && e.extension->0@ == "jsonl"@,
{
}

/// The texts of two lists of records, one behind the other, are the text of both. One
/// record by itself is its text and a line feed.
pub proof fn law_framed_records_join(
    a: Seq<Seq<char>>,
    b: Seq<Seq<char>>,
    record: Seq<char>,
)
    ensures
        framed(a + b) == framed(a) + framed(b),
        framed(seq![record]) == record.push('\n'),
    decreases b.len(),
{
    assert(seq![record].drop_last() =~= Seq::<Seq<char>>::empty());
    assert(framed(Seq::empty()) =~= Seq::<char>::empty());
    assert(framed(seq![record]) =~= record.push('\n'));
    if b.len() == 0 {
        assert(a + b =~= a);
        assert(framed(a) + framed(b) =~= framed(a));
    } else {
        assert((a + b).drop_last() =~= a + b.drop_last());
        law_framed_records_join(a, b.drop_last(), record);
        assert(framed(a + b) =~= framed(a) + framed(b));
    }
}

/// The text of an error ends with the reason that came with it, and tells a missing
/// session from one that could not be opened.
pub proof fn law_session_errors_give_their_reason(reason: String)
    ensures
        SessionError::ReadFailed(reason).text() == reason@,
        SessionError::OpenFailed(reason).text().skip(29) == reason@,
        SessionError::OpenFailed(reason).text().take(29) == "Failed to open session file: "@,
        SessionError::NoSessionFiles.text() == "No session files found"@,
{
    reveal_strlit("Failed to open session file: ");
    assert(SessionError::OpenFailed(reason).text().skip(29) =~= reason@);
    assert(SessionError::OpenFailed(reason).text().take(29) =~= "Failed to open session file: "@);
}

} // verus!
