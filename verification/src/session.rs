//! A chat session: its messages, what each event does to them and how they are kept.

use vstd::prelude::*;

use crate::message::{
    is_user_text, refuses, requests_in, says, Message, MessageContent, Request,
};
use crate::protocol::{Role, ToolError, ToolErrorView};
use crate::text::{appended, lines, lines_of, opt_string, same_text, texts, without_cr};
use crate::text_laws::{is_line, law_lines_front};

verus! {

/// A file in the directory of sessions. The time of its last change is given in
/// nanoseconds since the Unix epoch, where it is known.
#[derive(Debug)]
pub struct SessionEntry {
    pub extension: Option<String>,
    pub modified: Option<i128>,
}

/// The file holds a session.
pub open spec fn is_session(e: SessionEntry) -> bool {
    opt_string(e.extension) == Some("jsonl"@)
}

/// When the file was changed last; the Unix epoch where that is not known.
pub open spec fn changed_at(e: SessionEntry) -> int {
    match e.modified {
        Some(t) => t as int,
        None => 0,
    }
}

/// The session that was changed last stands at `i`: none was changed later, and
/// none before it in the list at the same time.
pub open spec fn most_recent(entries: Seq<SessionEntry>, i: int) -> bool {
    &&& 0 <= i < entries.len()
    &&& is_session(entries[i])
    &&& forall|j: int|
        0 <= j < entries.len() && is_session(#[trigger] entries[j]) ==> changed_at(entries[j])
            <= changed_at(entries[i]) && (j < i ==> changed_at(entries[j]) < changed_at(
            entries[i],
        ))
}

/// Why a session could not be found or loaded.
#[derive(Debug, PartialEq, Eq)]
pub enum SessionError {
    NoSessionFiles,
    OpenFailed(String),
    ReadFailed(String),
}

impl SessionError {
    /// The text of the error.
    pub open spec fn text(self) -> Seq<char> {
        match self {
            SessionError::NoSessionFiles => "No session files found"@,
            SessionError::OpenFailed(e) => "Failed to open session file: "@ + e@,
            SessionError::ReadFailed(e) => e@,
        }
    }

    /// The message of the error.
    pub fn message(&self) -> (m: String)
        ensures
            m@ == self.text(),
    {
        match self {
            SessionError::NoSessionFiles => "No session files found".to_string(),
            SessionError::OpenFailed(e) => appended("Failed to open session file: ", e.as_str()),
            SessionError::ReadFailed(e) => e.clone(),
        }
    }

    /// What the user is told when a session starts without its old messages.
    pub fn fresh_start_notice(&self) -> (m: String)
        ensures
            m@ == match *self {
                SessionError::ReadFailed(_) =>
                    "Failed to read messages from session file. Starting fresh.\n"@ + self.text(),
                _ => "Failed to load session file. Starting fresh.\n"@ + self.text(),
            },
    {
        let text = self.message();
        match self {
            SessionError::ReadFailed(_) => appended(
                "Failed to read messages from session file. Starting fresh.\n",
                text.as_str(),
            ),
            _ => appended("Failed to load session file. Starting fresh.\n", text.as_str()),
        }
    }
}

/// Where in the list the session stands that was changed last. Of several that were
/// changed at the same time it is the first.
pub fn get_most_recent_session(entries: &[SessionEntry]) -> (r: Result<usize, SessionError>)
    ensures
        match r {
            Ok(i) => most_recent(entries@, i as int),
            Err(e) => e == SessionError::NoSessionFiles && forall|j: int|
                0 <= j < entries@.len() ==> !is_session(#[trigger] entries@[j]),
        },
{
    let mut best: Option<usize> = None;
    let mut i: usize = 0;
    while i < entries.len()
        invariant
            i <= entries@.len(),
            match best {
                Some(b) => b < i && most_recent(entries@.take(i as int), b as int),
                None => forall|j: int| 0 <= j < i ==> !is_session(#[trigger] entries@[j]),
            },
        decreases entries@.len() - i,
    {
        proof {
            assert(entries@.take(i + 1).drop_last() =~= entries@.take(i as int));
            assert forall|j: int| 0 <= j < i implies entries@.take(i + 1)[j] == entries@.take(
                i as int,
            )[j] by {}
        }
        let matches_kind = match &entries[i].extension {
            Some(ext) => same_text(ext.as_str(), "jsonl"),
            None => false,
        };
        if matches_kind {
            match best {
                Some(b) => {
                    if stamp(&entries[b]) < stamp(&entries[i]) {
                        best = Some(i);
                    }
                },
                None => {
                    best = Some(i);
                },
            }
        }
        i += 1;
    }
    proof {
        assert(entries@.take(i as int) =~= entries@);
    }
    match best {
        Some(b) => Ok(b),
        None => Err(SessionError::NoSessionFiles),
    }
}

fn stamp(e: &SessionEntry) -> (t: i128)
    ensures
        t == changed_at(*e),
{
    match e.modified {
        Some(t) => t,
        None => 0,
    }
}

/// The lines, each ended by a line feed.
pub open spec fn framed(records: Seq<Seq<char>>) -> Seq<char>
    decreases records.len(),
{
    if records.len() == 0 {
        Seq::empty()
    } else {
        framed(records.drop_last()) + records.last() + seq!['\n']
    }
}

/// The text of a session file: one record, the JSON of a message, on each line.
/// Where each record is a line, reading the text gives the records back.
pub fn persist_messages(records: &[String]) -> (text: String)
    ensures
        text@ == framed(texts(records@)),
        (forall|i: int| 0 <= i < records@.len() ==> is_line((#[trigger] records@[i])@)) ==> lines(
            text@,
        ) == texts(records@),
{
    let mut text = String::new();
    let mut i: usize = 0;
    while i < records.len()
        invariant
            i <= records@.len(),
            text@ == framed(texts(records@.take(i as int))),
        decreases records@.len() - i,
    {
        text.append(records[i].as_str());
        text.push('\n');
        proof {
            let next = texts(records@.take(i + 1));
            assert(next.drop_last() =~= texts(records@.take(i as int)));
            assert(text@ =~= framed(next));
        }
        i += 1;
    }
    proof {
        assert(records@.take(i as int) =~= records@);
        let all = texts(records@);
        if forall|k: int| 0 <= k < records@.len() ==> is_line((#[trigger] records@[k])@) {
            assert forall|k: int| 0 <= k < all.len() implies is_line(#[trigger] all[k]) by {
                assert(is_line(records@[k]@));
            }
            law_read_back_what_was_persisted(all);
        }
    }
    text
}

/// The records of a session file: its lines.
pub fn deserialize_messages(text: &str) -> (records: Vec<String>)
    ensures
        texts(records@) == lines(text@),
{
    lines_of(text)
}

proof fn lemma_framed_front(records: Seq<Seq<char>>)
    requires
        records.len() > 0,
    ensures
        framed(records) == records[0] + seq!['\n'] + framed(records.drop_first()),
    decreases records.len(),
{
    if records.len() == 1 {
        assert(records.drop_last() =~= Seq::empty());
        assert(records.drop_first() =~= Seq::empty());
        assert(framed(records) =~= records[0] + seq!['\n'] + framed(records.drop_first()));
    } else {
        lemma_framed_front(records.drop_last());
        assert(records.drop_last().drop_first() =~= records.drop_first().drop_last());
        assert(framed(records) =~= records[0] + seq!['\n'] + framed(records.drop_first()));
    }
}

/// Reading a session file gives back the records that were written to it, where
/// each record stands on one line.
pub proof fn law_read_back_what_was_persisted(records: Seq<Seq<char>>)
    requires
        forall|i: int| 0 <= i < records.len() ==> is_line(#[trigger] records[i]),
    ensures
        lines(framed(records)) == records,
    decreases records.len(),
{
    if records.len() == 0 {
        assert(lines(framed(records)) =~= records);
    } else {
        let rest = records.drop_first();
        assert(is_line(records[0]));
        assert forall|i: int| 0 <= i < rest.len() implies is_line(#[trigger] rest[i]) by {
            assert(is_line(records[i + 1]));
        }
        lemma_framed_front(records);
        law_lines_front(records[0], framed(rest));
        assert(without_cr(records[0]) == records[0]);
        law_read_back_what_was_persisted(rest);
        assert(seq![records[0]] + rest =~= records);
    }
}

/// The messages of a session file, given what each of its records was read as. One
/// record that is no message spoils them all.
pub fn collected(parsed: Vec<Result<Message, String>>) -> (r: Result<Vec<Message>, SessionError>)
    ensures
        match r {
            Ok(messages) => messages@.len() == parsed@.len() && forall|i: int|
                0 <= i < parsed@.len() ==> #[trigger] parsed@[i] == Ok::<Message, String>(
                    messages@[i],
                ),
            Err(e) => exists|i: int|
                0 <= i < parsed@.len() && (#[trigger] parsed@[i] matches Err(m) && e
                    == SessionError::ReadFailed(m)) && forall|j: int|
                    0 <= j < i ==> #[trigger] parsed@[j] is Ok,
        },
{
    let ghost all = parsed@;
    let mut messages: Vec<Message> = Vec::new();
    for item in it: parsed
        invariant
            it.seq() == all,
            messages@.len() == it.index(),
            forall|i: int|
                0 <= i < it.index() ==> #[trigger] all[i] == Ok::<Message, String>(messages@[i]),
    {
        match item {
            Ok(message) => {
                messages.push(message);
            },
            Err(m) => {
                proof {
                    assert(all[it.index()] == Err::<Message, String>(m));
                }
                return Err(SessionError::ReadFailed(m));
            },
        }
    }
    Ok(messages)
}

/// Messages survive their session file, where writing puts each of them on one line
/// and reading that line gives it back: the file has a line for each message, and
/// reading the lines gives all of them, in their order.
pub proof fn law_messages_survive_their_file(
    messages: Seq<Message>,
    write: spec_fn(Message) -> Seq<char>,
    read: spec_fn(Seq<char>) -> Result<Message, Seq<char>>,
)
    requires
        forall|i: int|
            0 <= i < messages.len() ==> is_line(write(#[trigger] messages[i])) && read(
                write(messages[i]),
            ) == Ok::<Message, Seq<char>>(messages[i]),
    ensures
        ({
            let records = lines(framed(messages.map_values(write)));
            &&& records.len() == messages.len()
            &&& forall|i: int|
                0 <= i < messages.len() ==> read(#[trigger] records[i]) == Ok::<
                    Message,
                    Seq<char>,
                >(messages[i])
        }),
{
    let written = messages.map_values(write);
    assert forall|i: int| 0 <= i < written.len() implies is_line(#[trigger] written[i]) by {
        assert(is_line(write(messages[i])));
    }
    law_read_back_what_was_persisted(written);
    assert forall|i: int| 0 <= i < messages.len() implies read(#[trigger] written[i]) == Ok::<
        Message,
        Seq<char>,
    >(messages[i]) by {
        assert(read(write(messages[i])) == Ok::<Message, Seq<char>>(messages[i]));
    }
}

/// A chat session.
#[derive(Debug)]
pub struct Session {
    pub session_file: String,
    pub messages: Vec<Message>,
}

/// What the user does at the prompt.
#[derive(Clone, Copy, Debug, PartialEq, Eq, Structural)]
pub enum InputType {
    Message,
    Exit,
    AskAgain,
}

/// What the prompt hands over.
#[derive(Debug)]
pub struct Input {
    pub input_type: InputType,
    pub content: Option<String>,
}

/// What follows on an input: nothing, the end of the session, or a reply of the
/// agent, before which the messages are written to the session file if they grew.
#[derive(Clone, Copy, Debug, PartialEq, Eq, Structural)]
pub enum InputStep {
    AskAgain,
    Close,
    Reply { persist: bool },
}

/// What comes out of the stream of a reply.
#[derive(Debug)]
pub enum ReplyEvent {
    Message(Message),
    Failed,
    Finished,
    Interrupted,
}

/// What follows on an event of a reply: the messages are written to the session
/// file and the last one is shown, or the reply ends, perhaps with a word to the user.
#[derive(Debug)]
pub enum ReplyStep {
    PersistAndShow,
    Stop { note: Option<String> },
}

/// What the user is told when a reply fails.
pub const FAILURE_NOTE: &'static str =
    "\nThe error above was an exception we were not able to handle.\\n\\n\nThese errors are often related to connection or authentication\\n\nWe've removed the conversation up to the most recent user message\n - depending on the error you may be able to continue";

/// What an interrupted tool request is answered.
pub const INTERRUPTED: &'static str = "Interrupted by the user to make a correction";

/// What the assistant says when it was interrupted after tools had answered.
pub const INTERRUPTED_AFTER_TOOLS: &'static str =
    "We interrupted the existing calls to tools. How would you like to proceed?";

/// What the user is told when a message of theirs is taken back.
pub const INTERRUPTED_BEFORE_REPLY: &'static str =
    "We interrupted before the model replied and removed the last message.";

/// The messages before the last text of the user; none where there is no such text.
pub open spec fn rewound(messages: Seq<Message>) -> Seq<Message>
    decreases messages.len(),
{
    if messages.len() == 0 {
        Seq::empty()
    } else if is_user_text(messages.last()) {
        messages.drop_last()
    } else {
        rewound(messages.drop_last())
    }
}

/// Rewinding keeps a beginning of the conversation. What it drops starts with a
/// text of the user, and no other follows, unless the user never spoke: then
/// nothing is kept.
pub proof fn law_rewind_drops_the_last_user_turn(messages: Seq<Message>)
    ensures
        ({
            let kept = rewound(messages);
            &&& kept.is_prefix_of(messages)
            &&& kept.len() < messages.len() || messages.len() == 0
            &&& forall|i: int|
                kept.len() < i < messages.len() ==> !is_user_text(#[trigger] messages[i])
            &&& messages.len() > 0 ==> is_user_text(messages[kept.len() as int]) || (kept.len()
                == 0 && forall|i: int|
                0 <= i < messages.len() ==> !is_user_text(#[trigger] messages[i]))
        }),
    decreases messages.len(),
{
    if messages.len() > 0 && !is_user_text(messages.last()) {
        law_rewind_drops_the_last_user_turn(messages.drop_last());
        let kept = rewound(messages);
        assert forall|i: int| 0 <= i < messages.len() - 1 implies messages[i]
            == messages.drop_last()[i] by {}
        assert(kept.is_prefix_of(messages.drop_last()));
        assert(kept.is_prefix_of(messages));
    }
}

/// Rewinding gives back the conversation before a text of the user, whatever came
/// after it, as long as the user said nothing more.
pub proof fn law_rewind_undoes_a_turn(before: Seq<Message>, asked: Message, rest: Seq<Message>)
    requires
        is_user_text(asked),
        forall|i: int| 0 <= i < rest.len() ==> !is_user_text(#[trigger] rest[i]),
    ensures
        rewound(before.push(asked) + rest) == before,
    decreases rest.len(),
{
    let all = before.push(asked) + rest;
    if rest.len() == 0 {
        assert(all.drop_last() =~= before);
    } else {
        let init = rest.drop_last();
        assert(all.last() == rest[rest.len() - 1]);
        assert(all.drop_last() =~= before.push(asked) + init);
        assert forall|i: int| 0 <= i < init.len() implies !is_user_text(#[trigger] init[i]) by {
            assert(init[i] == rest[i]);
        }
        law_rewind_undoes_a_turn(before, asked, init);
    }
}

/// The tool requests that the last message makes and that nobody has answered.
pub open spec fn pending_requests(messages: Seq<Message>) -> Seq<Request> {
    if messages.len() > 0 && messages.last().role == Role::Assistant {
        requests_in(messages.last().content@)
    } else {
        Seq::empty()
    }
}

/// The name of the tool that the last request asks for.
pub open spec fn last_tool(requests: Seq<Request>) -> Seq<char> {
    match requests.last().tool {
        Some(name) => name,
        None => "tool"@,
    }
}

/// What the assistant says when tool requests are interrupted.
pub open spec fn interrupted_note(requests: Seq<Request>) -> Seq<char> {
    "We interrupted the existing call to "@ + last_tool(requests)
        + ". How would you like to proceed?"@
}

/// The message answers each of the requests, in order, by the error that it was
/// interrupted.
pub open spec fn answers_all(m: Message, requests: Seq<Request>) -> bool {
    &&& m.role == Role::User
    &&& m.content@.len() == requests.len()
    &&& forall|i: int|
        0 <= i < requests.len() ==> refuses(
            #[trigger] m.content@[i],
            requests[i].id,
            ToolErrorView::ExecutionError(INTERRUPTED@),
        )
}

/// The conversation ends with a message of the user that holds nothing.
pub open spec fn ends_with_nothing(messages: Seq<Message>) -> bool {
    messages.len() > 0 && messages.last().role == Role::User && messages.last().content@.len()
        == 0
}

/// What an interruption does to the messages and what the user is told.
pub open spec fn interruption(
    before: Seq<Message>,
    after: Seq<Message>,
    note: Option<Seq<char>>,
) -> bool {
    let requests = pending_requests(before);
    if requests.len() > 0 {
        &&& after.len() == before.len() + 2
        &&& after.take(before.len() as int) == before
        &&& answers_all(after[before.len() as int], requests)
        &&& says(after.last(), Role::Assistant, interrupted_note(requests))
        &&& note == Some(interrupted_note(requests))
    } else if before.len() > 0 && before.last().role == Role::User {
        if before.last().content@[0] is ToolResponse {
            &&& after.len() == before.len() + 1
            &&& after.take(before.len() as int) == before
            &&& says(after.last(), Role::Assistant, INTERRUPTED_AFTER_TOOLS@)
            &&& note == Some(INTERRUPTED_AFTER_TOOLS@)
        } else {
            &&& after == before.drop_last()
            &&& note == Some(INTERRUPTED_BEFORE_REPLY@)
        }
    } else {
        &&& after == before
        &&& note is None
    }
}

/// After an interruption no request of the last message is left open: those that
/// were are answered, each under its own id and by an error, before the assistant
/// asks how to go on. Whatever stood before stays.
pub proof fn law_interruption_answers_every_request(
    before: Seq<Message>,
    after: Seq<Message>,
    note: Option<Seq<char>>,
)
    requires
        interruption(before, after, note),
        pending_requests(before).len() > 0,
    ensures
        before.is_prefix_of(after),
        pending_requests(after).len() == 0,
        forall|i: int|
            0 <= i < pending_requests(before).len() ==> exists|k: int|
                0 <= k < after[before.len() as int].content@.len() && refuses(
                    #[trigger] after[before.len() as int].content@[k],
                    (#[trigger] pending_requests(before)[i]).id,
                    ToolErrorView::ExecutionError(INTERRUPTED@),
                ),
{
    let parts = after.last().content@;
    assert(parts.drop_last() =~= Seq::empty());
    assert(requests_in(parts.drop_last()) =~= Seq::empty());
    assert forall|i: int| 0 <= i < pending_requests(before).len() implies exists|k: int|
        0 <= k < after[before.len() as int].content@.len() && refuses(
            #[trigger] after[before.len() as int].content@[k],
            (#[trigger] pending_requests(before)[i]).id,
            ToolErrorView::ExecutionError(INTERRUPTED@),
        ) by {
        assert(refuses(
            after[before.len() as int].content@[i],
            pending_requests(before)[i].id,
            ToolErrorView::ExecutionError(INTERRUPTED@),
        ));
    }
}

/// An interruption before the reply takes back the message of the user, so that the
/// conversation is as it was before.
pub proof fn law_interruption_takes_back_what_was_asked(
    before: Seq<Message>,
    text: Seq<char>,
    asked: Message,
    after: Seq<Message>,
    note: Option<Seq<char>>,
)
    requires
        says(asked, Role::User, text),
        interruption(before.push(asked), after, note),
    ensures
        after == before,
        note == Some(INTERRUPTED_BEFORE_REPLY@),
{
    assert(before.push(asked).drop_last() =~= before);
}

/// A message of the assistant that says just the given text.
pub fn raw_message(content: &str) -> (m: Box<Message>)
    ensures
        says(*m, Role::Assistant, content@),
{
    Box::new(Message::with_text(Role::Assistant, content))
}

impl Session {
    /// A session that goes on from the messages of its file, or starts without
    /// any where they could not be loaded.
    pub fn new(session_file: String, loaded: Result<Vec<Message>, SessionError>) -> (s: Session)
        ensures
            s.session_file == session_file,
            loaded matches Ok(messages) ==> s.messages == messages,
            loaded is Err ==> s.messages@.len() == 0,
    {
        let messages: Vec<Message> = match loaded {
            Ok(messages) => messages,
            Err(_) => Vec::new(),
        };
        Session { session_file, messages }
    }

    /// The file that the session is kept in.
    pub fn session_file(&self) -> (path: String)
        ensures
            path@ == self.session_file@,
    {
        self.session_file.clone()
    }

    /// Takes in what the user did at the prompt and tells what follows. A message
    /// of the user joins the conversation.
    pub fn start(&mut self, input: Input) -> (step: InputStep)
        ensures
            final(self).session_file == old(self).session_file,
            step == match (input.input_type, input.content) {
                (InputType::Message, Some(_)) => InputStep::Reply { persist: true },
                (InputType::Message, None) => InputStep::Reply { persist: false },
                (InputType::Exit, _) => InputStep::Close,
                (InputType::AskAgain, _) => InputStep::AskAgain,
            },
            step == (InputStep::Reply { persist: true }) ==> final(self).messages@.len() == old(
                self,
            ).messages@.len() + 1 && final(self).messages@.drop_last() == old(self).messages@
                && says(final(self).messages@.last(), Role::User, input.content->0@),
            step != (InputStep::Reply { persist: true }) ==> final(self).messages == old(
                self,
            ).messages,
    {
        match input.input_type {
            InputType::Message => match input.content {
                Some(content) => {
                    let ghost before = self.messages@;
                    self.messages.push(Message::with_text(Role::User, content.as_str()));
                    proof {
                        assert(self.messages@.drop_last() =~= before);
                    }
                    InputStep::Reply { persist: true }
                },
                None => InputStep::Reply { persist: false },
            },
            InputType::Exit => InputStep::Close,
            InputType::AskAgain => InputStep::AskAgain,
        }
    }

    /// Opens a session without a prompt: the initial message joins the conversation.
    pub fn headless_start(&mut self, initial_message: String)
        ensures
            final(self).session_file == old(self).session_file,
            final(self).messages@.len() == old(self).messages@.len() + 1,
            final(self).messages@.drop_last() == old(self).messages@,
            says(final(self).messages@.last(), Role::User, initial_message@),
    {
        let ghost before = self.messages@;
        self.messages.push(Message::with_text(Role::User, initial_message.as_str()));
        proof {
            assert(self.messages@.drop_last() =~= before);
        }
    }

    /// Takes in an event of a reply and tells what follows. A message joins the
    /// conversation, a failure rewinds it, and an interruption settles what was
    /// left open.
    pub fn agent_process_messages(&mut self, event: ReplyEvent) -> (step: ReplyStep)
        requires
            event is Interrupted ==> !ends_with_nothing(old(self).messages@),
        ensures
            final(self).session_file == old(self).session_file,
            match event {
                ReplyEvent::Message(m) => final(self).messages@ == old(self).messages@.push(m)
                    && step is PersistAndShow,
                ReplyEvent::Failed => final(self).messages@ == rewound(old(self).messages@) && (
                step matches ReplyStep::Stop { note } && opt_string(note) == Some(FAILURE_NOTE@)),
                ReplyEvent::Finished => final(self).messages@ == old(self).messages@ && (
                step matches ReplyStep::Stop { note } && note is None),
                ReplyEvent::Interrupted => step matches ReplyStep::Stop { note } && interruption(
                    old(self).messages@,
                    final(self).messages@,
                    opt_string(note),
                ),
            },
    {
        match event {
            ReplyEvent::Message(m) => {
                self.messages.push(m);
                ReplyStep::PersistAndShow
            },
            ReplyEvent::Failed => {
                self.rewind_messages();
                ReplyStep::Stop { note: Some(FAILURE_NOTE.to_string()) }
            },
            ReplyEvent::Finished => ReplyStep::Stop { note: None },
            ReplyEvent::Interrupted => {
                let note = self.handle_interrupted_messages();
                ReplyStep::Stop { note }
            },
        }
    }

    /// Rewinds the messages to before the last text of the user.
    pub fn rewind_messages(&mut self)
        ensures
            final(self).session_file == old(self).session_file,
            final(self).messages@ == rewound(old(self).messages@),
    {
        let ghost before = self.messages@;
        while self.messages.len() > 0
            invariant
                self.session_file == old(self).session_file,
                before == old(self).messages@,
                rewound(before) == rewound(self.messages@),
            decreases self.messages@.len(),
        {
            let last: usize = self.messages.len() - 1;
            let found = self.messages[last].is_user_text();
            let ghost m = self.messages@;
            self.messages.pop();
            proof {
                assert(self.messages@ =~= m.drop_last());
            }
            if found {
                return;
            }
        }
        proof {
            assert(self.messages@ =~= Seq::empty());
        }
    }

    /// Whether the conversation ends with a message of the user that holds nothing.
    pub fn ends_with_nothing(&self) -> (r: bool)
        ensures
            r == ends_with_nothing(self.messages@),
    {
        let n: usize = self.messages.len();
        n > 0 && self.messages[n - 1].role == Role::User && self.messages[n - 1].content.len()
            == 0
    }

    /// The ids of the tool requests that nobody has answered, and the name of the
    /// tool that the last of them asks for.
    fn open_requests(&self) -> (r: (Vec<String>, String))
        ensures
            r.0@.len() == pending_requests(self.messages@).len(),
            forall|i: int|
                0 <= i < r.0@.len() ==> (#[trigger] r.0@[i])@ == pending_requests(
                    self.messages@,
                )[i].id,
            r.0@.len() > 0 ==> r.1@ == last_tool(pending_requests(self.messages@)),
    {
        let mut ids: Vec<String> = Vec::new();
        let mut tool = "tool".to_string();
        let n: usize = self.messages.len();
        if n == 0 || self.messages[n - 1].role != Role::Assistant {
            return (ids, tool);
        }
        let content = &self.messages[n - 1].content;
        let mut i: usize = 0;
        while i < content.len()
            invariant
                i <= content@.len(),
                ids@.len() == requests_in(content@.take(i as int)).len(),
                forall|j: int|
                    0 <= j < ids@.len() ==> (#[trigger] ids@[j])@ == requests_in(
                        content@.take(i as int),
                    )[j].id,
                ids@.len() > 0 ==> tool@ == last_tool(requests_in(content@.take(i as int))),
            decreases content@.len() - i,
        {
            proof {
                assert(content@.take(i + 1).drop_last() =~= content@.take(i as int));
            }
            match &content[i] {
                MessageContent::ToolRequest { id, tool_call } => {
                    ids.push(id.clone());
                    tool = match tool_call {
                        Ok(call) => call.name.clone(),
                        Err(_) => "tool".to_string(),
                    };
                },
                _ => {},
            }
            i += 1;
        }
        proof {
            assert(content@.take(i as int) =~= content@);
        }
        (ids, tool)
    }

    /// Settles what an interruption left open. Tool requests are answered, each by
    /// an error, and the assistant asks how to go on; after answers of tools it
    /// just asks; a message of the user that nobody replied to is taken back. The
    /// result is what the user is told.
    pub fn handle_interrupted_messages(&mut self) -> (note: Option<String>)
        requires
            !ends_with_nothing(old(self).messages@),
        ensures
            final(self).session_file == old(self).session_file,
            interruption(old(self).messages@, final(self).messages@, opt_string(note)),
    {
        let ghost before = self.messages@;
        let (ids, tool) = self.open_requests();
        if ids.len() > 0 {
            let mut content: Vec<MessageContent> = Vec::new();
            let mut i: usize = 0;
            while i < ids.len()
                invariant
                    i <= ids@.len(),
                    content@.len() == i,
                    forall|j: int|
                        0 <= j < i ==> refuses(
                            #[trigger] content@[j],
                            ids@[j]@,
                            ToolErrorView::ExecutionError(INTERRUPTED@),
                        ),
                decreases ids@.len() - i,
            {
                content.push(
                    MessageContent::ToolResponse {
                        id: ids[i].clone(),
                        tool_result: Err(ToolError::ExecutionError(INTERRUPTED.to_string())),
                    },
                );
                i += 1;
            }
            let mut text = "We interrupted the existing call to ".to_string();
            text.append(tool.as_str());
            text.append(". How would you like to proceed?");
            self.messages.push(Message { role: Role::User, content });
            self.messages.push(Message::with_text(Role::Assistant, text.as_str()));
            proof {
                assert(self.messages@.take(before.len() as int) =~= before);
            }
            return Some(text);
        }
        let n: usize = self.messages.len();
        if n > 0 && self.messages[n - 1].role == Role::User {
            let after_tools = match &self.messages[n - 1].content[0] {
                MessageContent::ToolResponse { .. } => true,
                _ => false,
            };
            if after_tools {
                self.messages.push(
                    Message::with_text(Role::Assistant, INTERRUPTED_AFTER_TOOLS),
                );
                proof {
                    assert(self.messages@.take(before.len() as int) =~= before);
                }
                return Some(INTERRUPTED_AFTER_TOOLS.to_string());
            }
            self.messages.pop();
            proof {
                assert(self.messages@ =~= before.drop_last());
            }
            return Some(INTERRUPTED_BEFORE_REPLY.to_string());
        }
        None
    }

    /// What the user is told when the session ends.
    pub fn close_session(&self) -> (note: String)
        ensures
            note@ == "Closing session. Recorded to "@ + self.session_file@ + "\n"@,
    {
        let mut note = "Closing session. Recorded to ".to_string();
        note.append(self.session_file.as_str());
        note.append("\n");
        note
    }
}

} // verus!
