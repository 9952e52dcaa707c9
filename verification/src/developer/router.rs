//! The router of the developer tools: which tools there are, what it tells of itself
//! and what edits it can undo.

use vstd::prelude::*;

use crate::developer::editor::{
    edited, is_edit, read_failure, replace_in_file, write_failure, Edit, FileRead,
};
use crate::developer::history::{saves, takes_back, FileHistory};
use crate::developer::paths::{FilePath, PathKey};
use crate::developer::wording::{
    GLOBAL_HINTS_HEAD, INSTRUCTIONS_HEAD, LIST_WINDOWS_DESCRIPTION, LIST_WINDOWS_SCHEMA,
    PROJECT_HINTS_HEAD, SCREEN_CAPTURE_DESCRIPTION, SCREEN_CAPTURE_SCHEMA, SHELL_DESCRIPTION,
    SHELL_SCHEMA, TEXT_EDITOR_DESCRIPTION, TEXT_EDITOR_SCHEMA,
};
use crate::protocol::{
    content_views, duplicate_tools, plain_text, tool_views, Content, ServerCapabilities, Tool,
    ToolError, ToolErrorView, ToolView,
};
use crate::text::{appended, contains_text, occurs_at, opt_string, same_text};

verus! {

/// The developer tools.
pub open spec fn developer_tools() -> Seq<ToolView> {
    seq![
        ToolView {
            name: "shell"@,
            description: SHELL_DESCRIPTION@,
            input_schema: SHELL_SCHEMA@,
        },
        ToolView {
            name: "text_editor"@,
            description: TEXT_EDITOR_DESCRIPTION@,
            input_schema: TEXT_EDITOR_SCHEMA@,
        },
        ToolView {
            name: "list_windows"@,
            description: LIST_WINDOWS_DESCRIPTION@,
            input_schema: LIST_WINDOWS_SCHEMA@,
        },
        ToolView {
            name: "screen_capture"@,
            description: SCREEN_CAPTURE_DESCRIPTION@,
            input_schema: SCREEN_CAPTURE_SCHEMA@,
        },
    ]
}

/// A developer tool.
#[derive(Clone, Copy, Debug, PartialEq, Eq, Structural)]
pub enum DeveloperTool {
    Shell,
    TextEditor,
    ListWindows,
    ScreenCapture,
}

/// The tool with the given name.
pub open spec fn tool_named(name: Seq<char>) -> Option<DeveloperTool> {
    if name == "shell"@ {
        Some(DeveloperTool::Shell)
    } else if name == "text_editor"@ {
        Some(DeveloperTool::TextEditor)
    } else if name == "list_windows"@ {
        Some(DeveloperTool::ListWindows)
    } else if name == "screen_capture"@ {
        Some(DeveloperTool::ScreenCapture)
    } else {
        None
    }
}

/// The tools that are offered are those that can be called.
pub proof fn law_offered_tools_are_known(name: Seq<char>)
    ensures
        tool_named(name) is Some <==> exists|i: int|
            0 <= i < developer_tools().len() && (#[trigger] developer_tools()[i]).name == name,
{
    let tools = developer_tools();
    assert(tools[0].name == "shell"@);
    assert(tools[1].name == "text_editor"@);
    assert(tools[2].name == "list_windows"@);
    assert(tools[3].name == "screen_capture"@);
}

/// The hints for all projects, and behind them those for the project at hand.
pub open spec fn hints_text(global: Option<Seq<char>>, local: Option<Seq<char>>) -> Seq<char> {
    let first = match global {
        Some(h) => GLOBAL_HINTS_HEAD@ + h,
        None => Seq::empty(),
    };
    match local {
        Some(h) => first + (if first.len() > 0 {
            "\n\n"@
        } else {
            Seq::empty()
        }) + PROJECT_HINTS_HEAD@ + h,
        None => first,
    }
}

/// What the extension tells of itself: how to use the tools, on which system and in
/// which directory they work, and the hints, if there are any.
pub open spec fn instructions_text(
    os: Seq<char>,
    cwd: Seq<char>,
    global: Option<Seq<char>>,
    local: Option<Seq<char>>,
) -> Seq<char> {
    let base = INSTRUCTIONS_HEAD@ + os + "\ncurrent directory: "@ + cwd + "\n\n"@;
    let hints = hints_text(global, local);
    if hints.len() == 0 {
        base
    } else {
        base + "\n"@ + hints
    }
}

/// The hints stand in the instructions, each behind its heading.
pub proof fn law_instructions_hold_the_hints(
    os: Seq<char>,
    cwd: Seq<char>,
    global: Option<Seq<char>>,
    local: Option<Seq<char>>,
)
    ensures
        global matches Some(h) ==> contains_text(
            instructions_text(os, cwd, global, local),
            GLOBAL_HINTS_HEAD@ + h,
        ),
        local matches Some(h) ==> contains_text(
            instructions_text(os, cwd, global, local),
            PROJECT_HINTS_HEAD@ + h,
        ),
        global is None && local is None ==> instructions_text(os, cwd, global, local)
            == INSTRUCTIONS_HEAD@ + os + "\ncurrent directory: "@ + cwd + "\n\n"@,
{
    let all = instructions_text(os, cwd, global, local);
    let base = INSTRUCTIONS_HEAD@ + os + "\ncurrent directory: "@ + cwd + "\n\n"@ + "\n"@;
    let hints = hints_text(global, local);
    if global is Some || local is Some {
        lemma_heads();
        assert(hints.len() > 0);
        assert(all =~= base + hints);
    }
    if let Some(h) = global {
        let p = GLOBAL_HINTS_HEAD@ + h;
        let i = base.len() as int;
        assert(all.subrange(i, i + p.len()) =~= p);
        assert(occurs_at(all, p, i));
    }
    if let Some(h) = local {
        let p = PROJECT_HINTS_HEAD@ + h;
        let i = all.len() - p.len();
        assert(all.subrange(i, i + p.len()) =~= p);
        assert(occurs_at(all, p, i));
    }
}

proof fn lemma_heads()
    ensures
        GLOBAL_HINTS_HEAD@.len() > 0,
        PROJECT_HINTS_HEAD@.len() > 0,
{
    reveal_strlit(
        "\n### Global Hints\nThe developer extension includes some global hints that apply to all projects & directories.\n",
    );
    reveal_strlit(
        "### Project Hints\nThe developer extension includes some hints for working on the project in this directory.\n",
    );
}

/// The router of the developer tools.
#[derive(Debug)]
pub struct DeveloperRouter {
    tools: Vec<Tool>,
    file_history: FileHistory,
    instructions: String,
}

/// Two routers differ in nothing but their histories.
pub open spec fn same_but_history(a: DeveloperRouter, b: DeveloperRouter) -> bool {
    a.offers() == b.offers() && a.tells() == b.tells()
}

/// The complaint when there is no edit to undo.
pub const NOTHING_TO_UNDO: &'static str = "No edit history available to undo";

impl DeveloperRouter {
    /// The tools that the router offers.
    pub closed spec fn offers(self) -> Seq<ToolView> {
        tool_views(self.tools@)
    }

    /// The text of the instructions.
    pub closed spec fn tells(self) -> Seq<char> {
        self.instructions@
    }

    /// The versions of files that can be brought back.
    pub closed spec fn history(self) -> FileHistory {
        self.file_history
    }

    /// A router on a system and in a directory. The hints are given where there are
    /// files of them that can be read.
    pub fn new(
        os: &str,
        cwd: &str,
        global_hints: Option<String>,
        local_hints: Option<String>,
    ) -> (r: DeveloperRouter)
        ensures
            r.offers() == developer_tools(),
            r.tells() == instructions_text(
                os@,
                cwd@,
                opt_string(global_hints),
                opt_string(local_hints),
            ),
            forall|k: PathKey| (#[trigger] r.history().versions(k)) == Seq::<Seq<char>>::empty(),
    {
        let mut tools: Vec<Tool> = Vec::new();
        tools.push(Tool::new("shell", SHELL_DESCRIPTION, SHELL_SCHEMA));
        tools.push(Tool::new("text_editor", TEXT_EDITOR_DESCRIPTION, TEXT_EDITOR_SCHEMA));
        tools.push(Tool::new("list_windows", LIST_WINDOWS_DESCRIPTION, LIST_WINDOWS_SCHEMA));
        tools.push(Tool::new("screen_capture", SCREEN_CAPTURE_DESCRIPTION, SCREEN_CAPTURE_SCHEMA));
        let mut hints = String::new();
        match &global_hints {
            Some(h) => {
                hints.append(GLOBAL_HINTS_HEAD);
                hints.append(h.as_str());
            },
            None => {},
        }
        match &local_hints {
            Some(h) => {
                if hints.as_str().unicode_len() > 0 {
                    hints.append("\n\n");
                }
                hints.append(PROJECT_HINTS_HEAD);
                hints.append(h.as_str());
            },
            None => {},
        }
        proof {
            assert(hints@ =~= hints_text(opt_string(global_hints), opt_string(local_hints)));
        }
        let mut instructions = INSTRUCTIONS_HEAD.to_string();
        instructions.append(os);
        instructions.append("\ncurrent directory: ");
        instructions.append(cwd);
        instructions.append("\n\n");
        if hints.as_str().unicode_len() > 0 {
            instructions.append("\n");
            instructions.append(hints.as_str());
        }
        let r = DeveloperRouter { tools, file_history: FileHistory::new(), instructions };
        proof {
            assert(r.offers() =~= developer_tools());
        }
        r
    }

    /// The name of the extension.
    pub fn name(&self) -> (s: String)
        ensures
            s@ == "developer"@,
    {
        "developer".to_string()
    }

    /// The instructions.
    pub fn instructions(&self) -> (s: String)
        ensures
            s@ == self.tells(),
    {
        self.instructions.clone()
    }

    /// The router offers tools and does not tell of changes of their list.
    pub fn capabilities(&self) -> (c: ServerCapabilities)
        ensures
            c.tools_list_changed == Some(false),
    {
        ServerCapabilities { tools_list_changed: Some(false) }
    }

    /// The tools that the router offers.
    pub fn list_tools(&self) -> (tools: Vec<Tool>)
        ensures
            tool_views(tools@) == self.offers(),
    {
        duplicate_tools(&self.tools)
    }

    /// The tool that a call names.
    pub fn call_tool(&self, tool_name: &str) -> (r: Result<DeveloperTool, ToolError>)
        ensures
            match r {
                Ok(t) => tool_named(tool_name@) == Some(t),
                Err(e) => tool_named(tool_name@) is None && e@ == ToolErrorView::NotFound(
                    "Tool "@ + tool_name@ + " not found"@,
                ),
            },
    {
        if same_text(tool_name, "shell") {
            Ok(DeveloperTool::Shell)
        } else if same_text(tool_name, "text_editor") {
            Ok(DeveloperTool::TextEditor)
        } else if same_text(tool_name, "list_windows") {
            Ok(DeveloperTool::ListWindows)
        } else if same_text(tool_name, "screen_capture") {
            Ok(DeveloperTool::ScreenCapture)
        } else {
            let mut m = "Tool ".to_string();
            m.append(tool_name);
            m.append(" not found");
            Err(ToolError::NotFound(m))
        }
    }

    /// The router offers no resources.
    pub fn list_resources(&self) -> (resources: Vec<String>)
        ensures
            resources@.len() == 0,
    {
        Vec::new()
    }

    /// Whatever resource is asked for is empty.
    pub fn read_resource(&self, _uri: &str) -> (content: String)
        ensures
            content@ == ""@,
    {
        "".to_string()
    }

    /// Saves the version of a file that was read, so that it can be brought back. A
    /// file that does not exist is saved as empty.
    pub fn save_file_history(&mut self, path: &FilePath, file: &FileRead) -> (r: Result<
        (),
        ToolError,
    >)
        ensures
            same_but_history(*old(self), *final(self)),
            match *file {
                FileRead::Unreadable(e) => *final(self) == *old(self) && (r matches Err(f) && f@
                    == read_failure(e@)),
                FileRead::Missing => r is Ok && saves(
                    old(self).history(),
                    final(self).history(),
                    path.key(),
                    Seq::empty(),
                ),
                FileRead::Text(content) => r is Ok && saves(
                    old(self).history(),
                    final(self).history(),
                    path.key(),
                    content@,
                ),
            },
    {
        match file {
            FileRead::Unreadable(e) => Err(
                ToolError::ExecutionError(appended("Failed to read file: ", e.as_str())),
            ),
            FileRead::Missing => {
                self.file_history.save(path, String::new());
                Ok(())
            },
            FileRead::Text(content) => {
                self.file_history.save(path, content.clone());
                Ok(())
            },
        }
    }

    /// Replaces the one occurrence of a text in a file that was read, and saves the
    /// version before the edit. The new content is to be written to the file.
    pub fn text_editor_replace(
        &mut self,
        path: &FilePath,
        file: &FileRead,
        old_str: &str,
        new_str: &str,
    ) -> (r: Result<Edit, ToolError>)
        ensures
            same_but_history(*old(self), *final(self)),
            r is Ok <==> edited(path.shown(), *file, old_str@, new_str@) is Ok,
            match r {
                Ok(edit) => *file matches FileRead::Text(content) && is_edit(
                    *path,
                    content@,
                    old_str@,
                    new_str@,
                    edit,
                ) && saves(old(self).history(), final(self).history(), path.key(), content@),
                Err(e) => *final(self) == *old(self) && edited(
                    path.shown(),
                    *file,
                    old_str@,
                    new_str@,
                ) == Err::<Seq<char>, ToolErrorView>(e@),
            },
    {
        let edit = match replace_in_file(path, file, old_str, new_str) {
            Ok(edit) => edit,
            Err(e) => {
                return Err(e);
            },
        };
        match self.save_file_history(path, file) {
            Ok(_) => Ok(edit),
            Err(e) => Err(e),
        }
    }

    /// Takes back the version of a file before its last edit. It is to be written to
    /// the file.
    pub fn text_editor_undo(&mut self, path: &FilePath) -> (r: Result<String, ToolError>)
        ensures
            same_but_history(*old(self), *final(self)),
            r is Ok <==> old(self).history().versions(path.key()).len() > 0,
            match r {
                Ok(content) => takes_back(
                    old(self).history(),
                    final(self).history(),
                    path.key(),
                    content@,
                ),
                Err(e) => *final(self) == *old(self) && e@ == ToolErrorView::InvalidParameters(
                    NOTHING_TO_UNDO@,
                ),
            },
    {
        match self.file_history.take_last(path) {
            Some(content) => Ok(content),
            None => Err(ToolError::InvalidParameters(NOTHING_TO_UNDO.to_string())),
        }
    }
}

/// What undoing an edit answers, given whether the file could be written.
pub fn undo_contents(outcome: Result<(), String>) -> (r: Result<Vec<Content>, ToolError>)
    ensures
        match (outcome, r) {
            (Ok(_), Ok(v)) => content_views(v@) == seq![plain_text("Undid the last edit"@)],
            (Err(e), Err(f)) => f@ == ToolErrorView::ExecutionError(
                "Failed to write file: "@ + e@,
            ),
            _ => false,
        },
{
    match outcome {
        Ok(_) => {
            let mut v: Vec<Content> = Vec::new();
            v.push(Content::text("Undid the last edit".to_string()));
            proof {
                assert(content_views(v@) =~= seq![plain_text("Undid the last edit"@)]);
            }
            Ok(v)
        },
        Err(e) => Err(write_failure(e.as_str())),
    }
}

} // verus!
