//! What tools are, what they answer and how they fail.

use vstd::prelude::*;

verus! {

/// Who a message or an answer comes from or is meant for.
#[derive(Clone, Copy, Debug, PartialEq, Eq, Structural)]
pub enum Role {
    User,
    Assistant,
}

/// What a piece of an answer shows.
#[derive(Debug, PartialEq, Eq)]
pub enum Body {
    Text(String),
    Image { data: String, mime_type: String },
    EmbeddedText { uri: String, text: String },
}

/// A piece of a tool's answer. The priority is given in tenths: `2` stands for `0.2`.
#[derive(Debug, PartialEq, Eq)]
pub struct Content {
    pub body: Body,
    pub audience: Option<Vec<Role>>,
    pub priority_tenths: Option<u8>,
}

/// The view of a [`Body`].
pub enum BodyView {
    Text(Seq<char>),
    Image { data: Seq<char>, mime_type: Seq<char> },
    EmbeddedText { uri: Seq<char>, text: Seq<char> },
}

/// The view of a [`Content`].
pub struct ContentView {
    pub body: BodyView,
    pub audience: Option<Seq<Role>>,
    pub priority_tenths: Option<u8>,
}

impl View for Body {
    type V = BodyView;

    open spec fn view(&self) -> BodyView {
        match *self {
            Body::Text(t) => BodyView::Text(t@),
            Body::Image { data, mime_type } => BodyView::Image {
                data: data@,
                mime_type: mime_type@,
            },
            Body::EmbeddedText { uri, text } => BodyView::EmbeddedText {
                uri: uri@,
                text: text@,
            },
        }
    }
}

impl View for Content {
    type V = ContentView;

    open spec fn view(&self) -> ContentView {
        ContentView {
            body: self.body@,
            audience: match self.audience {
                Some(roles) => Some(roles@),
                None => None,
            },
            priority_tenths: self.priority_tenths,
        }
    }
}

/// The views of the pieces of an answer.
pub open spec fn content_views(v: Seq<Content>) -> Seq<ContentView> {
    v.map_values(|c: Content| c@)
}

/// A text for everyone.
pub open spec fn plain_text(text: Seq<char>) -> ContentView {
    ContentView { body: BodyView::Text(text), audience: None, priority_tenths: None }
}

/// A text for the assistant.
pub open spec fn assistant_text(text: Seq<char>) -> ContentView {
    ContentView {
        body: BodyView::Text(text),
        audience: Some(seq![Role::Assistant]),
        priority_tenths: None,
    }
}

/// A text for the user, with a priority.
pub open spec fn user_text(text: Seq<char>, priority_tenths: u8) -> ContentView {
    ContentView {
        body: BodyView::Text(text),
        audience: Some(seq![Role::User]),
        priority_tenths: Some(priority_tenths),
    }
}

impl Content {
    /// A text for everyone.
    pub fn text(text: String) -> (c: Content)
        ensures
            c@ == plain_text(text@),
    {
        Content { body: Body::Text(text), audience: None, priority_tenths: None }
    }

    /// A text of some file or resource, for everyone.
    pub fn embedded_text(uri: String, text: String) -> (c: Content)
        ensures
            c@ == (ContentView {
                body: BodyView::EmbeddedText { uri: uri@, text: text@ },
                audience: None,
                priority_tenths: None,
            }),
    {
        Content {
            body: Body::EmbeddedText { uri, text },
            audience: None,
            priority_tenths: None,
        }
    }

    /// An image, as base64 text.
    pub fn image(data: String, mime_type: &str) -> (c: Content)
        ensures
            c@ == (ContentView {
                body: BodyView::Image { data: data@, mime_type: mime_type@ },
                audience: None,
                priority_tenths: None,
            }),
    {
        Content {
            body: Body::Image { data, mime_type: mime_type.to_owned() },
            audience: None,
            priority_tenths: None,
        }
    }

    /// The same piece for one role alone.
    pub fn for_role(self, role: Role) -> (c: Content)
        ensures
            c@ == (ContentView { audience: Some(seq![role]), ..self@ }),
    {
        let mut roles: Vec<Role> = Vec::new();
        roles.push(role);
        proof {
            assert(roles@ =~= seq![role]);
        }
        Content { body: self.body, audience: Some(roles), priority_tenths: self.priority_tenths }
    }

    /// The same piece with a priority.
    pub fn with_priority(self, tenths: u8) -> (c: Content)
        ensures
            c@ == (ContentView { priority_tenths: Some(tenths), ..self@ }),
    {
        Content { body: self.body, audience: self.audience, priority_tenths: Some(tenths) }
    }
}

/// Why a tool call failed.
#[derive(Debug, PartialEq, Eq)]
pub enum ToolError {
    InvalidParameters(String),
    ExecutionError(String),
    NotFound(String),
}

/// The view of a [`ToolError`].
pub enum ToolErrorView {
    InvalidParameters(Seq<char>),
    ExecutionError(Seq<char>),
    NotFound(Seq<char>),
}

impl View for ToolError {
    type V = ToolErrorView;

    open spec fn view(&self) -> ToolErrorView {
        match *self {
            ToolError::InvalidParameters(m) => ToolErrorView::InvalidParameters(m@),
            ToolError::ExecutionError(m) => ToolErrorView::ExecutionError(m@),
            ToolError::NotFound(m) => ToolErrorView::NotFound(m@),
        }
    }
}

impl ToolError {
    /// The message of the error.
    pub fn message(&self) -> (m: &str)
        ensures
            m@ == match self@ {
                ToolErrorView::InvalidParameters(t) => t,
                ToolErrorView::ExecutionError(t) => t,
                ToolErrorView::NotFound(t) => t,
            },
    {
        match self {
            ToolError::InvalidParameters(m) => m.as_str(),
            ToolError::ExecutionError(m) => m.as_str(),
            ToolError::NotFound(m) => m.as_str(),
        }
    }
}

/// A tool: its name, what it does and the JSON schema of its arguments, as JSON text.
#[derive(Debug, PartialEq, Eq)]
pub struct Tool {
    pub name: String,
    pub description: String,
    pub input_schema: String,
}

/// The view of a [`Tool`].
pub struct ToolView {
    pub name: Seq<char>,
    pub description: Seq<char>,
    pub input_schema: Seq<char>,
}

impl View for Tool {
    type V = ToolView;

    open spec fn view(&self) -> ToolView {
        ToolView {
            name: self.name@,
            description: self.description@,
            input_schema: self.input_schema@,
        }
    }
}

/// The views of a list of tools.
pub open spec fn tool_views(v: Seq<Tool>) -> Seq<ToolView> {
    v.map_values(|t: Tool| t@)
}

impl Tool {
    /// A tool.
    pub fn new(name: &str, description: &str, input_schema: &str) -> (t: Tool)
        ensures
            t@ == (ToolView {
                name: name@,
                description: description@,
                input_schema: input_schema@,
            }),
    {
        Tool {
            name: name.to_owned(),
            description: description.to_owned(),
            input_schema: input_schema.to_owned(),
        }
    }

    /// A copy of the tool.
    pub fn duplicate(&self) -> (t: Tool)
        ensures
            t@ == self@,
    {
        Tool {
            name: self.name.clone(),
            description: self.description.clone(),
            input_schema: self.input_schema.clone(),
        }
    }
}

/// Copies of a list of tools.
pub fn duplicate_tools(tools: &Vec<Tool>) -> (copies: Vec<Tool>)
    ensures
        tool_views(copies@) == tool_views(tools@),
{
    let mut copies: Vec<Tool> = Vec::new();
    let mut i: usize = 0;
    while i < tools.len()
        invariant
            i <= tools@.len(),
            copies@.len() == i,
            forall|j: int| 0 <= j < i ==> (#[trigger] copies@[j])@ == tools@[j]@,
        decreases tools@.len() - i,
    {
        copies.push(tools[i].duplicate());
        i += 1;
    }
    proof {
        assert(tool_views(copies@) =~= tool_views(tools@));
    }
    copies
}

/// What a server can do: whether it offers tools, and if so whether it tells of
/// changes of their list.
#[derive(Clone, Copy, Debug, PartialEq, Eq, Structural)]
pub struct ServerCapabilities {
    pub tools_list_changed: Option<bool>,
}

/// The views of answers and tools hold all of what those hold, piece by piece.
pub proof fn law_answer_views_are_faithful(c: Content, v: Seq<Content>, e: ToolError)
    ensures
        c@.priority_tenths == c.priority_tenths,
        match c.audience {
            Some(roles) => c@.audience == Some(roles@),
            None => c@.audience is None,
        },
        match c.body {
            Body::Text(t) => c@.body == BodyView::Text(t@),
            Body::Image { data, mime_type } => c@.body == (BodyView::Image {
                data: data@,
                mime_type: mime_type@,
            }),
            Body::EmbeddedText { uri, text } => c@.body == (BodyView::EmbeddedText {
                uri: uri@,
                text: text@,
            }),
        },
        content_views(v).len() == v.len(),
        forall|i: int| 0 <= i < v.len() ==> #[trigger] content_views(v)[i] == v[i]@,
        match e {
            ToolError::InvalidParameters(m) => e@ == ToolErrorView::InvalidParameters(m@),
            ToolError::ExecutionError(m) => e@ == ToolErrorView::ExecutionError(m@),
            ToolError::NotFound(m) => e@ == ToolErrorView::NotFound(m@),
        },
{
}

/// The views of tools hold their names, descriptions and schemas.
pub proof fn law_tool_views_are_faithful(t: Tool, v: Seq<Tool>)
    ensures
        t@.name == t.name@,
        t@.description == t.description@,
        t@.input_schema == t.input_schema@,
        tool_views(v).len() == v.len(),
        forall|i: int| 0 <= i < v.len() ==> #[trigger] tool_views(v)[i] == v[i]@,
{
}

/// A text is meant for everyone, for the assistant or for the user, as it was made;
/// only the user's has a priority.
pub proof fn law_texts_reach_their_reader(text: Seq<char>, tenths: u8)
    ensures
        plain_text(text).body == BodyView::Text(text),
        plain_text(text).audience is None,
        plain_text(text).priority_tenths is None,
        assistant_text(text).body == BodyView::Text(text),
        assistant_text(text).audience == Some(seq![Role::Assistant]),
        assistant_text(text).priority_tenths is None,
        user_text(text, tenths).body == BodyView::Text(text),
        user_text(text, tenths).audience == Some(seq![Role::User]),
        user_text(text, tenths).priority_tenths == Some(tenths),
{
}

} // verus!
