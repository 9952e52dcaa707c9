//! The messages of a conversation.

use vstd::prelude::*;

use crate::protocol::{Role, ToolError, ToolErrorView};

verus! {

/// A call of a tool that the model asks for, with its arguments as JSON text.
#[derive(Debug, PartialEq, Eq)]
pub struct ToolCall {
    pub name: String,
    pub arguments: String,
}

/// A part of a message. What a tool answered, and parts of other kinds, are kept as
/// JSON text.
#[derive(Debug, PartialEq, Eq)]
pub enum MessageContent {
    Text(String),
    ToolRequest { id: String, tool_call: Result<ToolCall, ToolError> },
    ToolResponse { id: String, tool_result: Result<String, ToolError> },
    Other(String),
}

/// A message of a conversation.
#[derive(Debug, PartialEq, Eq)]
pub struct Message {
    pub role: Role,
    pub content: Vec<MessageContent>,
}

/// The message says just the given text.
pub open spec fn says(m: Message, role: Role, text: Seq<char>) -> bool {
    &&& m.role == role
    &&& m.content@.len() == 1
    &&& m.content@[0] matches MessageContent::Text(t) && t@ == text
}

/// The message comes from the user and holds a text.
pub open spec fn is_user_text(m: Message) -> bool {
    m.role == Role::User && exists|i: int|
        0 <= i < m.content@.len() && (#[trigger] m.content@[i]) is Text
}

/// A request that is yet to be answered: its id and the name of the tool, where
/// the request could be read.
pub struct Request {
    pub id: Seq<char>,
    pub tool: Option<Seq<char>>,
}

/// The tool requests among the parts of a message, in order.
pub open spec fn requests_in(content: Seq<MessageContent>) -> Seq<Request>
    decreases content.len(),
{
    if content.len() == 0 {
        Seq::empty()
    } else {
        let before = requests_in(content.drop_last());
        match content.last() {
            MessageContent::ToolRequest { id, tool_call } => before.push(
                Request {
                    id: id@,
                    tool: match tool_call {
                        Ok(call) => Some(call.name@),
                        Err(_) => None,
                    },
                },
            ),
            _ => before,
        }
    }
}

/// The part answers the request with the given id by an error.
pub open spec fn refuses(part: MessageContent, id: Seq<char>, error: ToolErrorView) -> bool {
    part matches MessageContent::ToolResponse { id: i, tool_result: Err(e) } && i@ == id && e@
        == error
}

/// The requests of parts that are put together are those of the first and behind
/// them those of the second. A part by itself gives its request, where it is one, and
/// nothing else.
pub proof fn law_requests_of_joined_parts(
    a: Seq<MessageContent>,
    b: Seq<MessageContent>,
    part: MessageContent,
)
    ensures
        requests_in(a + b) == requests_in(a) + requests_in(b),
        match part {
            MessageContent::ToolRequest { id, tool_call } => {
                let found = requests_in(seq![part]);
                &&& found.len() == 1
                &&& found[0].id == id@
                &&& match tool_call {
                    Ok(call) => found[0].tool == Some(call.name@),
                    Err(_) => found[0].tool is None,
                }
            },
            _ => requests_in(seq![part]).len() == 0,
        },
    decreases b.len(),
{
    assert(seq![part].drop_last() =~= Seq::<MessageContent>::empty());
    assert(requests_in(Seq::empty()) =~= Seq::<Request>::empty());
    if b.len() == 0 {
        assert(a + b =~= a);
        assert(requests_in(a) + requests_in(b) =~= requests_in(a));
    } else {
        assert((a + b).drop_last() =~= a + b.drop_last());
        law_requests_of_joined_parts(a, b.drop_last(), part);
        assert(requests_in(a + b) =~= requests_in(a) + requests_in(b));
    }
}

/// Each part of a message that is a tool request is found, under its own id and with
/// the name of its tool, and nothing else is found.
pub proof fn law_each_request_is_found(content: Seq<MessageContent>)
    ensures
        forall|k: int|
            0 <= k < content.len() ==> (#[trigger] content[k] matches MessageContent::ToolRequest {
                id,
                tool_call,
            } ==> exists|j: int|
                0 <= j < requests_in(content).len() && (#[trigger] requests_in(content)[j]).id
                    == id@),
        forall|j: int|
            0 <= j < requests_in(content).len() ==> exists|k: int|
                0 <= k < content.len() && (#[trigger] content[k] matches MessageContent::ToolRequest {
                    id,
                    tool_call,
                } && id@ == (#[trigger] requests_in(content)[j]).id),
    decreases content.len(),
{
    if content.len() > 0 {
        let init = content.drop_last();
        law_each_request_is_found(init);
        let before = requests_in(init);
        let all = requests_in(content);
        assert forall|k: int| 0 <= k < content.len() implies (
        #[trigger] content[k] matches MessageContent::ToolRequest { id, tool_call } ==> exists|
            j: int,
        |
            0 <= j < all.len() && (#[trigger] all[j]).id == id@) by {
            if k < init.len() {
                assert(init[k] == content[k]);
                if content[k] is ToolRequest {
                    let i = content[k]->ToolRequest_id@;
                    let j = choose|j: int| 0 <= j < before.len() && (#[trigger] before[j]).id == i;
                    assert(all[j] == before[j]);
                }
            } else if content[k] is ToolRequest {
                assert(all[all.len() - 1].id == content[k]->ToolRequest_id@);
            }
        }
        assert forall|j: int| 0 <= j < all.len() implies exists|k: int|
            0 <= k < content.len() && (#[trigger] content[k] matches MessageContent::ToolRequest {
                id,
                tool_call,
            } && id@ == (#[trigger] all[j]).id) by {
            if j < before.len() {
                assert(all[j] == before[j]);
                let k = choose|k: int|
                    0 <= k < init.len() && (#[trigger] init[k] matches MessageContent::ToolRequest {
                        id,
                        tool_call,
                    } && id@ == before[j].id);
                assert(content[k] == init[k]);
            } else {
                assert(content[content.len() - 1] is ToolRequest);
            }
        }
    }
}

impl Message {
    /// A message that says just the given text.
    pub fn with_text(role: Role, text: &str) -> (m: Message)
        ensures
            says(m, role, text@),
    {
        let mut content: Vec<MessageContent> = Vec::new();
        content.push(MessageContent::Text(text.to_owned()));
        Message { role, content }
    }

    /// Whether the message comes from the user and holds a text.
    pub fn is_user_text(&self) -> (r: bool)
        ensures
            r == is_user_text(*self),
    {
        if self.role != Role::User {
            return false;
        }
        let mut i: usize = 0;
        while i < self.content.len()
            invariant
                self.role == Role::User,
                i <= self.content@.len(),
                forall|j: int| 0 <= j < i ==> !((#[trigger] self.content@[j]) is Text),
            decreases self.content@.len() - i,
        {
            if let MessageContent::Text(_) = &self.content[i] {
                return true;
            }
            i += 1;
        }
        false
    }
}

} // verus!
