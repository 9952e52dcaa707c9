use goose::message::{Message, MessageContent, ToolCall};
use goose::protocol::{Role, ToolError};
use goose::session::{
    collected, deserialize_messages, get_most_recent_session, persist_messages, raw_message, Input,
    InputStep, InputType, ReplyEvent, ReplyStep, Session, SessionEntry, SessionError,
};

fn said(role: Role, text: &str) -> Message {
    Message { role, content: vec![MessageContent::Text(text.to_string())] }
}

fn requests(calls: &[(&str, Option<&str>)]) -> Message {
    let content = calls
        .iter()
        .map(|(id, name)| MessageContent::ToolRequest {
            id: id.to_string(),
            tool_call: match name {
                Some(n) => Ok(ToolCall { name: n.to_string(), arguments: "{}".to_string() }),
                None => Err(ToolError::NotFound("x".to_string())),
            },
        })
        .collect();
    Message { role: Role::Assistant, content }
}

fn response(id: &str) -> Message {
    let part = MessageContent::ToolResponse { id: id.to_string(), tool_result: Ok("[]".to_string()) };
    Message { role: Role::User, content: vec![part] }
}

fn session(messages: Vec<Message>) -> Session {
    Session::new("/s/one.jsonl".to_string(), Ok(messages))
}

fn text_of(m: &Message) -> &str {
    assert_eq!(m.content.len(), 1);
    match &m.content[0] {
        MessageContent::Text(t) => t,
        _ => panic!("no text"),
    }
}

#[test]
fn a_session_knows_its_file() {
    let s = session(vec![]);
    assert_eq!(s.session_file(), "/s/one.jsonl");
    assert_eq!(s.close_session(), "Closing session. Recorded to /s/one.jsonl\n");
    let m = raw_message("hello");
    assert_eq!(m.role, Role::Assistant);
    assert_eq!(text_of(&m), "hello");
}

#[test]
fn a_session_starts_fresh_where_its_file_cannot_be_read() {
    assert_eq!(session(vec![said(Role::User, "a")]).messages.len(), 1);
    let error = SessionError::OpenFailed("denied".to_string());
    assert_eq!(error.message(), "Failed to open session file: denied");
    assert_eq!(
        error.fresh_start_notice(),
        "Failed to load session file. Starting fresh.\nFailed to open session file: denied"
    );
    assert!(Session::new("/s".to_string(), Err(error)).messages.is_empty());
    assert_eq!(
        SessionError::ReadFailed("bad".to_string()).fresh_start_notice(),
        "Failed to read messages from session file. Starting fresh.\nbad"
    );
}

#[test]
fn session_files_hold_a_record_on_each_line() {
    let records = vec!["{\"a\":1}".to_string(), "{}".to_string(), "[]".to_string()];
    let text = persist_messages(&records);
    assert_eq!(text, "{\"a\":1}\n{}\n[]\n");
    assert_eq!(deserialize_messages(&text), records);
    assert_eq!(persist_messages(&[]), "");
    assert!(deserialize_messages("").is_empty());
    assert_eq!(deserialize_messages("a\r\nb"), vec!["a", "b"]);
}

#[test]
fn the_most_recent_session_is_found() {
    let entry = |extension: Option<&str>, modified| SessionEntry {
        extension: extension.map(String::from),
        modified,
    };
    let entries = vec![
        entry(Some("txt"), Some(90)),
        entry(Some("jsonl"), Some(10)),
        entry(Some("jsonl"), Some(30)),
        entry(Some("jsonl"), None),
        entry(Some("jsonl"), Some(30)),
        entry(None, Some(80)),
    ];
    assert_eq!(get_most_recent_session(&entries), Ok(2));
    let error = get_most_recent_session(&entries[..1]).unwrap_err();
    assert_eq!(error.message(), "No session files found");
    let old = [entry(Some("jsonl"), Some(-5)), entry(Some("jsonl"), None)];
    assert_eq!(get_most_recent_session(&old), Ok(1));
}

#[test]
fn one_bad_record_spoils_the_list() {
    let good = |text: &str| Ok(said(Role::User, text));
    assert_eq!(
        collected(vec![good("a"), good("b")]),
        Ok(vec![said(Role::User, "a"), said(Role::User, "b")])
    );
    assert_eq!(collected(vec![]), Ok(vec![]));
    let bad = |text: &str| Err(text.to_string());
    assert_eq!(
        collected(vec![good("a"), bad("first"), good("b"), bad("second")]),
        Err(SessionError::ReadFailed("first".to_string()))
    );
}

#[test]
fn input_joins_the_conversation() {
    let mut s = session(vec![]);
    let input = |input_type, content: Option<&str>| Input {
        input_type,
        content: content.map(String::from),
    };
    assert_eq!(
        s.start(input(InputType::Message, Some("hi"))),
        InputStep::Reply { persist: true }
    );
    assert_eq!(s.messages.len(), 1);
    assert_eq!(s.messages[0].role, Role::User);
    assert_eq!(text_of(&s.messages[0]), "hi");
    assert_eq!(s.start(input(InputType::Message, None)), InputStep::Reply { persist: false });
    assert_eq!(s.start(input(InputType::AskAgain, Some("x"))), InputStep::AskAgain);
    assert_eq!(s.start(input(InputType::Exit, None)), InputStep::Close);
    assert_eq!(s.messages.len(), 1);
    s.headless_start("go".to_string());
    assert_eq!(text_of(&s.messages[1]), "go");
}

#[test]
fn replies_are_taken_in_event_by_event() {
    let mut s = session(vec![said(Role::User, "hi")]);
    let step = s.agent_process_messages(ReplyEvent::Message(said(Role::Assistant, "hello")));
    assert!(matches!(step, ReplyStep::PersistAndShow));
    assert_eq!(s.messages.len(), 2);
    let step = s.agent_process_messages(ReplyEvent::Finished);
    assert!(matches!(step, ReplyStep::Stop { note: None }));
    assert_eq!(s.messages.len(), 2);
    match s.agent_process_messages(ReplyEvent::Failed) {
        ReplyStep::Stop { note: Some(note) } => {
            assert_eq!(
                note,
                r#"
The error above was an exception we were not able to handle.\n\n
These errors are often related to connection or authentication\n
We've removed the conversation up to the most recent user message
 - depending on the error you may be able to continue"#
            );
        }
        _ => panic!("no note"),
    }
    assert!(s.messages.is_empty());
}

#[test]
fn rewinding_drops_the_last_user_turn() {
    let mut s = session(vec![
        said(Role::User, "one"),
        said(Role::Assistant, "1"),
        said(Role::User, "two"),
        requests(&[("a", Some("shell"))]),
        response("a"),
    ]);
    s.rewind_messages();
    assert_eq!(s.messages.len(), 2);
    assert_eq!(text_of(&s.messages[1]), "1");
    s.rewind_messages();
    assert!(s.messages.is_empty());
    s.rewind_messages();
    assert!(s.messages.is_empty());
    let mut silent = session(vec![said(Role::Assistant, "x"), response("a")]);
    silent.rewind_messages();
    assert!(silent.messages.is_empty());
}

#[test]
fn interrupted_requests_are_answered() {
    let mut s = session(vec![
        said(Role::User, "go"),
        requests(&[("a", Some("shell")), ("b", Some("text_editor"))]),
    ]);
    let note = s.handle_interrupted_messages();
    let expected = "We interrupted the existing call to text_editor. How would you like to proceed?";
    assert_eq!(note.as_deref(), Some(expected));
    assert_eq!(s.messages.len(), 4);
    assert_eq!(s.messages[2].role, Role::User);
    let ids: Vec<&str> = s.messages[2]
        .content
        .iter()
        .map(|part| match part {
            MessageContent::ToolResponse { id, tool_result: Err(e) } => {
                assert_eq!(
                    e,
                    &ToolError::ExecutionError(
                        "Interrupted by the user to make a correction".to_string()
                    )
                );
                id.as_str()
            }
            _ => panic!("no answer"),
        })
        .collect();
    assert_eq!(ids, vec!["a", "b"]);
    assert_eq!(s.messages[3].role, Role::Assistant);
    assert_eq!(text_of(&s.messages[3]), expected);

    let mut unreadable = session(vec![requests(&[("a", Some("shell")), ("b", None)])]);
    assert_eq!(
        unreadable.handle_interrupted_messages().as_deref(),
        Some("We interrupted the existing call to tool. How would you like to proceed?")
    );
}

#[test]
fn interruptions_elsewhere_are_settled() {
    let mut answered = session(vec![requests(&[("a", Some("shell"))]), response("a")]);
    let expected = "We interrupted the existing calls to tools. How would you like to proceed?";
    assert_eq!(answered.handle_interrupted_messages().as_deref(), Some(expected));
    assert_eq!(answered.messages.len(), 3);
    assert_eq!(text_of(&answered.messages[2]), expected);

    let mut asked = session(vec![said(Role::User, "one"), said(Role::User, "two")]);
    assert_eq!(
        asked.handle_interrupted_messages().as_deref(),
        Some("We interrupted before the model replied and removed the last message.")
    );
    assert_eq!(asked.messages.len(), 1);

    let mut replied = session(vec![said(Role::Assistant, "done")]);
    assert_eq!(replied.handle_interrupted_messages(), None);
    assert_eq!(replied.messages.len(), 1);
    assert_eq!(session(vec![]).handle_interrupted_messages(), None);

    let step = session(vec![said(Role::User, "x")]).agent_process_messages(ReplyEvent::Interrupted);
    assert!(matches!(step, ReplyStep::Stop { note: Some(_) }));
    let nothing = session(vec![Message { role: Role::User, content: vec![] }]);
    assert!(nothing.ends_with_nothing());
    assert!(!asked.ends_with_nothing());
}
