//! The text editor tool: viewing, writing, replacing and undoing.

use vstd::prelude::*;
use vstd::slice::slice_subrange;

use crate::developer::paths::{
    file_uri, has_file_uri, is_file_uri, resolve_path, resolved_view, resolves, slash_names,
    uri_view, url_path, FilePath,
};
use crate::json::{string_field, Json};
use crate::protocol::{
    assistant_text, content_views, user_text, BodyView, Content, ContentView, Role,
    ToolError, ToolErrorView,
};
use crate::text::{
    chars_of, appended, contains_text, count, count_from, count_line_feeds, decimal, decimal_text,
    find_from, first_from, join, join_strings, lemma_first_from, line_feeds, lines, lines_of,
    occurs_at, opt_text, same_text, text_of, texts,
};

verus! {

/// The largest file, in bytes, that is shown.
pub const MAX_FILE_SIZE: u64 = 400 * 1024;

/// The largest number of characters that is shown.
pub const MAX_CHAR_COUNT: usize = 400_000;

/// The number of lines shown before and after an edit.
pub const SNIPPET_LINES: usize = 4;

/// The view of a tool's answer.
pub open spec fn answer(r: Result<Vec<Content>, ToolError>) -> Result<
    Seq<ContentView>,
    ToolErrorView,
> {
    match r {
        Ok(v) => Ok(content_views(v@)),
        Err(e) => Err(e@),
    }
}

/// What the text editor is asked to do with a file.
#[derive(Debug, PartialEq, Eq)]
pub enum EditorCommand {
    View,
    Write { file_text: String },
    StrReplace { old_str: String, new_str: String },
    UndoEdit,
}

/// The view of an [`EditorCommand`].
pub enum EditorCommandView {
    View,
    Write { file_text: Seq<char> },
    StrReplace { old_str: Seq<char>, new_str: Seq<char> },
    UndoEdit,
}

impl View for EditorCommand {
    type V = EditorCommandView;

    open spec fn view(&self) -> EditorCommandView {
        match *self {
            EditorCommand::View => EditorCommandView::View,
            EditorCommand::Write { file_text } => EditorCommandView::Write {
                file_text: file_text@,
            },
            EditorCommand::StrReplace { old_str, new_str } => EditorCommandView::StrReplace {
                old_str: old_str@,
                new_str: new_str@,
            },
            EditorCommand::UndoEdit => EditorCommandView::UndoEdit,
        }
    }
}

/// The view of a parsed call of the text editor.
pub open spec fn command_view(r: Result<EditorCommand, ToolError>) -> Result<
    EditorCommandView,
    ToolErrorView,
> {
    match r {
        Ok(c) => Ok(c@),
        Err(e) => Err(e@),
    }
}

/// The complaint about a parameter that is not given.
pub open spec fn missing(message: Seq<char>) -> ToolErrorView {
    ToolErrorView::InvalidParameters(message)
}

/// What the parameters of the text editor ask for, once the path is accepted.
pub open spec fn parsed_command(params: Json, command: Seq<char>) -> Result<
    EditorCommandView,
    ToolErrorView,
> {
    if command == "view"@ {
        Ok(EditorCommandView::View)
    } else if command == "write"@ {
        match string_field(params, "file_text"@) {
            Some(file_text) => Ok(EditorCommandView::Write { file_text }),
            None => Err(missing("Missing 'file_text' parameter"@)),
        }
    } else if command == "str_replace"@ {
        match (string_field(params, "old_str"@), string_field(params, "new_str"@)) {
            (Some(old_str), Some(new_str)) => Ok(
                EditorCommandView::StrReplace { old_str, new_str },
            ),
            (None, _) => Err(missing("Missing 'old_str' parameter"@)),
            (Some(_), None) => Err(missing("Missing 'new_str' parameter"@)),
        }
    } else if command == "undo_edit"@ {
        Ok(EditorCommandView::UndoEdit)
    } else {
        Err(missing("Unknown command '"@ + command + "'"@))
    }
}

/// What is missing of a call of the text editor.
pub open spec fn missing_parameter(params: Json) -> Option<ToolErrorView> {
    if string_field(params, "command"@) is None {
        Some(missing("Missing 'command' parameter"@))
    } else if string_field(params, "path"@) is None {
        Some(missing("Missing 'path' parameter"@))
    } else {
        None
    }
}

/// What a call of the text editor asks for, given what its path resolves to: the
/// command and the path must be given, the path must be absolute, and the command
/// must have its parameters.
pub open spec fn parsed_call(params: Json, resolved: Result<FilePath, ToolErrorView>) -> Result<
    (FilePath, EditorCommandView),
    ToolErrorView,
> {
    match missing_parameter(params) {
        Some(e) => Err(e),
        None => match resolved {
            Err(e) => Err(e),
            Ok(path) => match parsed_command(params, string_field(params, "command"@)->0) {
                Ok(command) => Ok((path, command)),
                Err(e) => Err(e),
            },
        },
    }
}

/// A call of the text editor: the file and what is to be done with it.
#[derive(Debug)]
pub struct EditorCall {
    pub path: FilePath,
    pub command: EditorCommand,
}

/// The view of a call of the text editor or of the complaint about it.
pub open spec fn call_view(r: Result<EditorCall, ToolError>) -> Result<
    (FilePath, EditorCommandView),
    ToolErrorView,
> {
    match r {
        Ok(c) => Ok((c.path, c.command@)),
        Err(e) => Err(e@),
    }
}

/// The path that a call of the text editor names. A call without a command or
/// without a path is refused.
pub fn text_editor_path<'a>(params: &'a Json) -> (r: Result<&'a str, ToolError>)
    ensures
        match r {
            Ok(p) => missing_parameter(*params) is None && string_field(*params, "path"@) == Some(
                p@,
            ),
            Err(e) => missing_parameter(*params) == Some(e@),
        },
{
    if params.get_str("command").is_none() {
        return Err(ToolError::InvalidParameters("Missing 'command' parameter".to_string()));
    }
    match params.get_str("path") {
        Some(p) => Ok(p),
        None => Err(ToolError::InvalidParameters("Missing 'path' parameter".to_string())),
    }
}

/// Reads a call of the text editor, given what its path resolves to.
pub fn editor_call(params: &Json, resolved: Result<FilePath, ToolError>) -> (r: Result<
    EditorCall,
    ToolError,
>)
    ensures
        call_view(r) == parsed_call(*params, resolved_view(resolved)),
{
    match text_editor_path(params) {
        Ok(_) => {},
        Err(e) => {
            return Err(e);
        },
    }
    let path = match resolved {
        Ok(path) => path,
        Err(e) => {
            return Err(e);
        },
    };
    match editor_command(params, params.get_str("command").unwrap()) {
        Ok(command) => Ok(EditorCall { path, command }),
        Err(e) => Err(e),
    }
}

/// Reads a call of the text editor. What its path resolves to is partly up to the
/// platform; all else is as [`editor_call`] says.
pub fn text_editor(params: &Json, home: Option<&str>, cwd: &str) -> (r: Result<
    EditorCall,
    ToolError,
>)
    ensures
        match missing_parameter(*params) {
            Some(e) => call_view(r) == Err::<(FilePath, EditorCommandView), ToolErrorView>(e),
            None => exists|resolved: Result<FilePath, ToolErrorView>|
                resolves(string_field(*params, "path"@)->0, opt_text(home), cwd@, resolved)
                    && call_view(r) == #[trigger] parsed_call(*params, resolved),
        },
{
    let path_str: &str = match text_editor_path(params) {
        Ok(p) => p,
        Err(e) => {
            return Err(e);
        },
    };
    editor_call(params, resolve_path(path_str, home, cwd))
}

fn editor_command(params: &Json, command: &str) -> (r: Result<EditorCommand, ToolError>)
    ensures
        command_view(r) == parsed_command(*params, command@),
{
    if same_text(command, "view") {
        Ok(EditorCommand::View)
    } else if same_text(command, "write") {
        match params.get_str("file_text") {
            Some(t) => Ok(EditorCommand::Write { file_text: t.to_owned() }),
            None => Err(
                ToolError::InvalidParameters("Missing 'file_text' parameter".to_string()),
            ),
        }
    } else if same_text(command, "str_replace") {
        match params.get_str("old_str") {
            Some(o) => match params.get_str("new_str") {
                Some(n) => Ok(
                    EditorCommand::StrReplace { old_str: o.to_owned(), new_str: n.to_owned() },
                ),
                None => Err(
                    ToolError::InvalidParameters("Missing 'new_str' parameter".to_string()),
                ),
            },
            None => Err(ToolError::InvalidParameters("Missing 'old_str' parameter".to_string())),
        }
    } else if same_text(command, "undo_edit") {
        Ok(EditorCommand::UndoEdit)
    } else {
        let mut m = "Unknown command '".to_string();
        m.append(command);
        m.append("'");
        Err(ToolError::InvalidParameters(m))
    }
}

/// What the platform tells of a file before it is read. The size is given in
/// bytes and, as a text, in kilobytes with two decimals.
#[derive(Debug)]
pub enum FileStat {
    NotAFile,
    Unknown(String),
    Sized { bytes: u64, kilobytes: String },
}

/// What reading a file gave.
#[derive(Debug)]
pub enum FileRead {
    Missing,
    Unreadable(String),
    Text(String),
}

/// The complaint about a file that could not be read.
pub open spec fn read_failure(e: Seq<char>) -> ToolErrorView {
    ToolErrorView::ExecutionError("Failed to read file: "@ + e)
}

/// The complaint about a path that is no file.
pub open spec fn no_file(path: Seq<char>) -> ToolErrorView {
    ToolErrorView::ExecutionError("The path '"@ + path + "' does not exist or is not a file."@)
}

/// Why a file may not be shown, going by what is known before it is read.
pub open spec fn stat_failure(path: Seq<char>, stat: FileStat) -> Option<ToolErrorView> {
    match stat {
        FileStat::NotAFile => Some(no_file(path)),
        FileStat::Unknown(e) => Some(
            ToolErrorView::ExecutionError("Failed to get file metadata: "@ + e@),
        ),
        FileStat::Sized { bytes, kilobytes } => if bytes > MAX_FILE_SIZE {
            Some(
                ToolErrorView::ExecutionError(
                    "File '"@ + path + "' is too large ("@ + kilobytes@
                        + "KB). Maximum size is 400KB to prevent memory issues."@,
                ),
            )
        } else {
            None
        },
    }
}

/// Whether a file may be read in order to show it: it must be a file of at most
/// [`MAX_FILE_SIZE`] bytes.
pub fn check_file_size(path: &FilePath, stat: &FileStat) -> (r: Result<(), ToolError>)
    ensures
        match r {
            Ok(_) => stat_failure(path.shown(), *stat) is None,
            Err(e) => stat_failure(path.shown(), *stat) == Some(e@),
        },
{
    match stat {
        FileStat::NotAFile => {
            let mut m = "The path '".to_string();
            m.append(path.text());
            m.append("' does not exist or is not a file.");
            Err(ToolError::ExecutionError(m))
        },
        FileStat::Unknown(e) => {
            let mut m = "Failed to get file metadata: ".to_string();
            m.append(e.as_str());
            Err(ToolError::ExecutionError(m))
        },
        FileStat::Sized { bytes, kilobytes } => {
            if *bytes > MAX_FILE_SIZE {
                let mut m = "File '".to_string();
                m.append(path.text());
                m.append("' is too large (");
                m.append(kilobytes.as_str());
                m.append("KB). Maximum size is 400KB to prevent memory issues.");
                Err(ToolError::ExecutionError(m))
            } else {
                Ok(())
            }
        },
    }
}

/// The complaint about a file that holds too many characters.
pub open spec fn too_long(path: Seq<char>, length: nat) -> ToolErrorView {
    ToolErrorView::ExecutionError(
        "File '"@ + path + "' has too many characters ("@ + decimal(length as int)
            + "). Maximum character count is "@ + decimal(MAX_CHAR_COUNT as int) + "."@,
    )
}

/// A file as it is shown to the user: its path as a heading above its content.
pub open spec fn file_block(
    path: Seq<char>,
    language: Seq<char>,
    content: Seq<char>,
) -> Seq<char> {
    "### "@ + path + "\n```"@ + language + "\n"@ + content + "\n```\n"@
}

/// What showing a file answers.
pub open spec fn viewed(
    path: Seq<char>,
    uri: Option<Seq<char>>,
    read: Result<String, String>,
    language: Seq<char>,
) -> Result<Seq<ContentView>, ToolErrorView> {
    match uri {
        None => Err(ToolErrorView::ExecutionError("Invalid file path"@)),
        Some(u) => match read {
            Err(e) => Err(read_failure(e@)),
            Ok(content) => if content@.len() > MAX_CHAR_COUNT {
                Err(too_long(path, content@.len()))
            } else {
                Ok(
                    seq![
                        ContentView {
                            body: BodyView::EmbeddedText { uri: u, text: content@ },
                            audience: Some(seq![Role::Assistant]),
                            priority_tenths: None,
                        },
                        user_text(file_block(path, language, content@), 0),
                    ],
                )
            },
        },
    }
}

fn file_block_text(path: &str, language: &str, content: &str) -> (s: String)
    ensures
        s@ == file_block(path@, language@, content@),
{
    let mut s = "### ".to_string();
    s.append(path);
    s.append("\n```");
    s.append(language);
    s.append("\n");
    s.append(content);
    s.append("\n```\n");
    s
}

/// What showing a file answers, given its URL, if it has one, and what reading it
/// gave: to the assistant the content, to the user the content under a heading.
pub fn view_contents(
    path: &FilePath,
    uri: Result<String, ()>,
    read: Result<String, String>,
    language: &str,
) -> (r: Result<Vec<Content>, ToolError>)
    ensures
        answer(r) == viewed(path.shown(), uri_view(uri), read, language@),
{
    let uri = match uri {
        Ok(u) => u,
        Err(_) => {
            return Err(ToolError::ExecutionError("Invalid file path".to_string()));
        },
    };
    match read {
        Err(e) => Err(ToolError::ExecutionError(appended("Failed to read file: ", e.as_str()))),
        Ok(content) => {
            let length: usize = content.as_str().unicode_len();
            if length > MAX_CHAR_COUNT {
                let mut m = "File '".to_string();
                m.append(path.text());
                m.append("' has too many characters (");
                m.append(decimal_text(length).as_str());
                m.append("). Maximum character count is ");
                m.append(decimal_text(MAX_CHAR_COUNT).as_str());
                m.append(".");
                return Err(ToolError::ExecutionError(m));
            }
            let block = file_block_text(path.text(), language, content.as_str());
            let mut v: Vec<Content> = Vec::new();
            v.push(Content::embedded_text(uri, content).for_role(Role::Assistant));
            v.push(Content::text(block).for_role(Role::User).with_priority(0));
            proof {
                assert(content_views(v@) =~= viewed(
                    path.shown(),
                    uri_view(Ok(uri)),
                    Ok(content),
                    language@,
                )->Ok_0);
            }
            Ok(v)
        },
    }
}

/// `r` is what showing a file answers. A file that is too large, or none, is refused
/// whatever reading gave. Else the answer is that of [`viewed`] for the URL of the
/// path, which an absolute path that starts with one slash always has.
pub open spec fn shows(
    path: FilePath,
    stat: FileStat,
    read: Result<String, String>,
    language: Seq<char>,
    r: Result<Seq<ContentView>, ToolErrorView>,
) -> bool {
    match stat_failure(path.shown(), stat) {
        Some(e) => r == Err::<Seq<ContentView>, ToolErrorView>(e),
        None => exists|uri: Option<Seq<char>>|
            is_file_uri(path.shown(), uri) && (has_file_uri(path) ==> uri is Some) && r
                == #[trigger] viewed(path.shown(), uri, read, language),
    }
}

/// Shows a file, given what the platform tells of it and what reading it gave.
/// Whether a path has a URL is partly up to the platform; all else is as
/// [`view_contents`] says.
pub fn text_editor_view(
    path: &FilePath,
    stat: &FileStat,
    read: Result<String, String>,
    language: &str,
) -> (r: Result<Vec<Content>, ToolError>)
    ensures
        shows(*path, *stat, read, language@, answer(r)),
{
    match check_file_size(path, stat) {
        Ok(_) => {},
        Err(e) => {
            return Err(e);
        },
    }
    let uri = file_uri(path);
    view_contents(path, uri, read, language)
}

proof fn lemma_viewed_content(
    path: Seq<char>,
    uri: Seq<char>,
    content: String,
    language: Seq<char>,
)
    requires
        content@.len() <= MAX_CHAR_COUNT,
    ensures
        viewed(path, Some(uri), Ok(content), language) matches Ok(v) && v.len() == 2
            && v[0].body == (BodyView::EmbeddedText { uri, text: content@ }) && (
        v[1].body matches BodyView::Text(shown) && contains_text(shown, content@)),
{
    let head = "### "@ + path + "\n```"@ + language + "\n"@;
    let shown = file_block(path, language, content@);
    assert(shown.subrange(head.len() as int, (head.len() + content@.len()) as int) =~= content@);
    assert(occurs_at(shown, content@, head.len() as int));
}

/// Showing a file that is small enough and could be read gives its whole content, to
/// the assistant as it is, under the URL of the path, and to the user within the text
/// shown. This holds of every absolute path that starts with one slash.
pub proof fn law_view_shows_the_content(
    path: FilePath,
    stat: FileStat,
    content: String,
    language: Seq<char>,
    r: Result<Seq<ContentView>, ToolErrorView>,
)
    requires
        shows(path, stat, Ok(content), language, r),
        stat_failure(path.shown(), stat) is None,
        content@.len() <= MAX_CHAR_COUNT,
        has_file_uri(path),
    ensures
        r matches Ok(v) && v.len() == 2 && v[0].body == (BodyView::EmbeddedText {
            uri: "file://"@ + url_path(slash_names(path.shown())),
            text: content@,
        }) && (v[1].body matches BodyView::Text(shown) && contains_text(shown, content@)),
{
    let uri = choose|uri: Option<Seq<char>>|
        is_file_uri(path.shown(), uri) && (has_file_uri(path) ==> uri is Some) && r
            == #[trigger] viewed(path.shown(), uri, Ok(content), language);
    lemma_viewed_content(path.shown(), uri->0, content, language);
}

/// What writing a file answers.
pub open spec fn written_contents(path: FilePath, file_text: Seq<char>) -> Seq<ContentView> {
    seq![
        assistant_text("Successfully wrote to "@ + path.shown()),
        user_text(file_block(path.shown(), path.language(), file_text), 2),
    ]
}

/// What writing a file answers, once it is written: to the assistant a
/// confirmation, to the user the new content.
pub fn write_contents(path: &FilePath, file_text: &str) -> (v: Vec<Content>)
    ensures
        content_views(v@) == written_contents(*path, file_text@),
{
    let block = file_block_text(path.text(), path.extension_or_empty(), file_text);
    let mut v: Vec<Content> = Vec::new();
    v.push(
        Content::text(appended("Successfully wrote to ", path.text())).for_role(
            Role::Assistant,
        ),
    );
    v.push(Content::text(block).for_role(Role::User).with_priority(2));
    proof {
        assert(content_views(v@) =~= written_contents(*path, file_text@));
    }
    v
}

/// The complaint about a file that could not be written.
pub fn write_failure(e: &str) -> (r: ToolError)
    ensures
        r@ == ToolErrorView::ExecutionError("Failed to write file: "@ + e@),
{
    ToolError::ExecutionError(appended("Failed to write file: ", e))
}

/// What writing a file answers, given whether writing it worked.
pub fn text_editor_write(path: &FilePath, file_text: &str, outcome: Result<(), String>) -> (r:
    Result<Vec<Content>, ToolError>)
    ensures
        answer(r) == match outcome {
            Ok(_) => Ok::<Seq<ContentView>, ToolErrorView>(written_contents(*path, file_text@)),
            Err(e) => Err(ToolErrorView::ExecutionError("Failed to write file: "@ + e@)),
        },
{
    match outcome {
        Ok(_) => Ok(write_contents(path, file_text)),
        Err(e) => Err(write_failure(e.as_str())),
    }
}

/// The complaint about a file to edit that does not exist.
pub open spec fn nothing_to_edit(path: Seq<char>) -> ToolErrorView {
    ToolErrorView::InvalidParameters(
        "File '"@ + path
            + "' does not exist, you can write a new file with the `write` command"@,
    )
}

/// The complaint about a text that stands in the file more than once.
pub const AMBIGUOUS: &'static str =
    "'old_str' must appear exactly once in the file, but it appears multiple times";

/// The complaint about a text that does not stand in the file.
pub const NOT_FOUND: &'static str =
    "'old_str' must appear exactly once in the file, but it does not appear in the file. Make sure the string exactly matches existing file content, including whitespace!";

/// The content with the first occurrence of the old text, at position `i`,
/// replaced by the new.
pub open spec fn spliced(content: Seq<char>, old: Seq<char>, new: Seq<char>, i: int) -> Seq<char> {
    content.take(i) + new + content.skip(i + old.len())
}

/// Replaces the one occurrence of the old text by the new. A text that occurs
/// not once or more than once, counting disjoint occurrences from the left, is
/// refused.
pub open spec fn replaced(content: Seq<char>, old: Seq<char>, new: Seq<char>) -> Result<
    Seq<char>,
    ToolErrorView,
> {
    if count_from(content, old, 0) > 1 {
        Err(ToolErrorView::InvalidParameters(AMBIGUOUS@))
    } else if count_from(content, old, 0) == 0 {
        Err(ToolErrorView::InvalidParameters(NOT_FOUND@))
    } else {
        Ok(spliced(content, old, new, first_from(content, old, 0)->0))
    }
}

/// What reading a file and replacing a text in it gives.
pub open spec fn edited(path: Seq<char>, file: FileRead, old: Seq<char>, new: Seq<char>) -> Result<
    Seq<char>,
    ToolErrorView,
> {
    match file {
        FileRead::Missing => Err(nothing_to_edit(path)),
        FileRead::Unreadable(e) => Err(read_failure(e@)),
        FileRead::Text(content) => replaced(content@, old, new),
    }
}

/// A number of lines, but no more than there are.
pub open spec fn up_to(n: int, total: nat) -> int {
    if n < total {
        n
    } else {
        total as int
    }
}

/// The lines around an edit, which starts behind `prefix`: those that the new
/// text touches, and [`SNIPPET_LINES`] before and after them.
pub open spec fn snippet(prefix: Seq<char>, new: Seq<char>, content: Seq<char>) -> Seq<char> {
    let all = lines(content);
    let at = line_feeds(prefix) as int;
    let first = if at < SNIPPET_LINES {
        0
    } else {
        at - SNIPPET_LINES
    };
    let last = at + SNIPPET_LINES + line_feeds(new);
    join(all.subrange(up_to(first, all.len()), up_to(last + 1, all.len())), "\n"@)
}

/// The lines around an edit as a code block.
pub open spec fn snippet_block(language: Seq<char>, snippet: Seq<char>) -> Seq<char> {
    "```"@ + language + "\n"@ + snippet + "\n```\n"@
}

/// What an edit answers.
pub open spec fn edit_contents(path: FilePath, snippet: Seq<char>) -> Seq<ContentView> {
    let block = snippet_block(path.language(), snippet);
    seq![
        assistant_text(
            "The file "@ + path.shown() + " has been edited, and the section now reads:\n"@ + block
                + "\nReview the changes above for errors. Undo and edit the file again if necessary!\n"@,
        ),
        user_text(block, 2),
    ]
}

/// An edit that was accepted: the new content of the file and what is answered.
#[derive(Debug)]
pub struct Edit {
    pub new_content: String,
    pub contents: Vec<Content>,
}

/// The edit replaces the one occurrence of the old text, and its answer shows the
/// lines around it.
pub open spec fn is_edit(
    path: FilePath,
    content: Seq<char>,
    old: Seq<char>,
    new: Seq<char>,
    edit: Edit,
) -> bool {
    let i = first_from(content, old, 0)->0;
    &&& replaced(content, old, new) == Ok::<Seq<char>, ToolErrorView>(edit.new_content@)
    &&& content_views(edit.contents@) == edit_contents(
        path,
        snippet(content.take(i), new, edit.new_content@),
    )
}

fn snippet_text(content: &[char], at: usize, new: &[char], new_content: &str) -> (s: String)
    requires
        at <= content@.len(),
    ensures
        s@ == snippet(content@.take(at as int), new@, new_content@),
{
    let all = lines_of(new_content);
    let total: usize = all.len();
    let line: usize = count_line_feeds(content, at);
    let first: usize = line.saturating_sub(SNIPPET_LINES);
    let more: usize = count_line_feeds(new, new.len());
    let last: usize = line.saturating_add(SNIPPET_LINES).saturating_add(more);
    let from: usize = if first < total {
        first
    } else {
        total
    };
    let to: usize = if last < total {
        last + 1
    } else {
        total
    };
    proof {
        assert(new@.take(new@.len() as int) =~= new@);
        assert(texts(all@) == lines(new_content@));
        assert(all@.len() == lines(new_content@).len());
    }
    let shown = slice_subrange(all.as_slice(), from, to);
    proof {
        assert(texts(shown@) =~= lines(new_content@).subrange(from as int, to as int));
    }
    join_strings(shown, "\n")
}

/// Replaces the one occurrence of a text in a file that was read, and shows the
/// lines around it.
pub fn replace_in_file(path: &FilePath, file: &FileRead, old_str: &str, new_str: &str) -> (r:
    Result<Edit, ToolError>)
    ensures
        match r {
            Ok(edit) => *file matches FileRead::Text(content) && is_edit(
                *path,
                content@,
                old_str@,
                new_str@,
                edit,
            ),
            Err(e) => edited(path.shown(), *file, old_str@, new_str@) == Err::<
                Seq<char>,
                ToolErrorView,
            >(e@),
        },
        r is Ok <==> edited(path.shown(), *file, old_str@, new_str@) is Ok,
{
    let content: &str = match file {
        FileRead::Missing => {
            let mut m = "File '".to_string();
            m.append(path.text());
            m.append("' does not exist, you can write a new file with the `write` command");
            return Err(ToolError::InvalidParameters(m));
        },
        FileRead::Unreadable(e) => {
            return Err(ToolError::ExecutionError(appended("Failed to read file: ", e.as_str())));
        },
        FileRead::Text(content) => content.as_str(),
    };
    let cc = chars_of(content);
    let oc = chars_of(old_str);
    let nc = chars_of(new_str);
    let total: usize = cc.len();
    let n: usize = count(cc.as_slice(), oc.as_slice());
    if n > 1 {
        return Err(ToolError::InvalidParameters(AMBIGUOUS.to_string()));
    }
    proof {
        lemma_first_from(content@, old_str@, 0);
        if old_str@.len() == 0 {
            assert(content@.subrange(0, 0) =~= old_str@);
            assert(occurs_at(content@, old_str@, 0));
        }
    }
    let at: usize = match find_from(cc.as_slice(), oc.as_slice(), 0) {
        Some(i) => i,
        None => {
            return Err(ToolError::InvalidParameters(NOT_FOUND.to_string()));
        },
    };
    let rest: usize = at + oc.len();
    let mut new_content = text_of(cc.as_slice(), 0, at);
    new_content.append(new_str);
    new_content.append(text_of(cc.as_slice(), rest, total).as_str());
    proof {
        assert(content@.subrange(0, at as int) =~= content@.take(at as int));
        assert(content@.subrange(rest as int, total as int) =~= content@.skip(rest as int));
    }
    let shown = snippet_text(cc.as_slice(), at, nc.as_slice(), new_content.as_str());
    let mut block = "```".to_string();
    block.append(path.extension_or_empty());
    block.append("\n");
    block.append(shown.as_str());
    block.append("\n```\n");
    let mut message = "The file ".to_string();
    message.append(path.text());
    message.append(" has been edited, and the section now reads:\n");
    message.append(block.as_str());
    message.append(
        "\nReview the changes above for errors. Undo and edit the file again if necessary!\n",
    );
    let mut contents: Vec<Content> = Vec::new();
    contents.push(Content::text(message).for_role(Role::Assistant));
    contents.push(Content::text(block).for_role(Role::User).with_priority(2));
    proof {
        assert(content_views(contents@) =~= edit_contents(*path, shown@));
    }
    Ok(Edit { new_content, contents })
}

proof fn lemma_count_none(s: Seq<char>, p: Seq<char>)
    requires
        p.len() > 0,
    ensures
        count_from(s, p, 0) == 0 <==> !contains_text(s, p),
{
    lemma_first_from(s, p, 0);
}

/// A replacement that is accepted cuts the content into what stands before the
/// old text, the old text, and what stands behind it, and puts the new text in
/// the place of the old.
pub proof fn law_replace_touches_the_old_text_alone(
    content: Seq<char>,
    old: Seq<char>,
    new: Seq<char>,
)
    requires
        replaced(content, old, new) is Ok,
    ensures
        exists|before: Seq<char>, behind: Seq<char>|
            content == before + old + behind && replaced(content, old, new) == Ok::<
                Seq<char>,
                ToolErrorView,
            >(#[trigger] (before + new + behind)),
{
    lemma_first_from(content, old, 0);
    assert(first_from(content, old, 0) is Some) by {
        if old.len() == 0 {
            assert(content.subrange(0, 0) =~= old);
            assert(occurs_at(content, old, 0));
        }
    }
    let i = first_from(content, old, 0)->0;
    let before = content.take(i);
    let behind = content.skip(i + old.len());
    assert(content =~= before + content.subrange(i, i + old.len()) + behind);
    assert(replaced(content, old, new) == Ok::<Seq<char>, ToolErrorView>(before + new + behind));
}

/// A text that stands at exactly one position is replaced; one that stands nowhere
/// is refused.
pub proof fn law_replace_accepts_a_unique_text(
    content: Seq<char>,
    old: Seq<char>,
    new: Seq<char>,
)
    ensures
        (exists|i: int| #[trigger] occurs_at(content, old, i)) && (forall|i: int, j: int|
            #[trigger]
            occurs_at(content, old, i) && #[trigger] occurs_at(content, old, j) ==> i == j)
            ==> replaced(content, old, new) is Ok,
        !contains_text(content, old) ==> replaced(content, old, new) == Err::<
            Seq<char>,
            ToolErrorView,
        >(ToolErrorView::InvalidParameters(NOT_FOUND@)),
{
    lemma_first_from(content, old, 0);
    if old.len() == 0 {
        assert(content.subrange(0, 0) =~= old);
        assert(occurs_at(content, old, 0));
        if content.len() > 0 {
            assert(content.subrange(1, 1) =~= old);
            assert(occurs_at(content, old, 1));
        }
    } else {
        lemma_count_none(content, old);
        match first_from(content, old, 0) {
            Some(i) => {
                let behind = i + old.len();
                lemma_first_from(content, old, behind);
                if forall|a: int, b: int|
                    #[trigger] occurs_at(content, old, a) && #[trigger] occurs_at(content, old, b)
                        ==> a == b {
                    assert(first_from(content, old, behind) is None);
                    assert(count_from(content, old, behind) == 0);
                }
            },
            None => {},
        }
    }
}

/// A text is replaced exactly if it stands in the file and all its occurrences
/// overlap, so that no two of them are distinct sections of the file.
pub proof fn law_replace_refuses_an_ambiguous_text(
    content: Seq<char>,
    old: Seq<char>,
    new: Seq<char>,
)
    requires
        old.len() > 0,
    ensures
        replaced(content, old, new) is Ok <==> contains_text(content, old) && forall|
            i: int,
            j: int,
        |
            #[trigger] occurs_at(content, old, i) && #[trigger] occurs_at(content, old, j) ==> i < j
                + old.len(),
{
    lemma_first_from(content, old, 0);
    lemma_count_none(content, old);
    match first_from(content, old, 0) {
        Some(i) => {
            let behind = i + old.len();
            lemma_first_from(content, old, behind);
            assert(count_from(content, old, 0) == 1 + count_from(content, old, behind));
            match first_from(content, old, behind) {
                Some(k) => {
                    assert(count_from(content, old, behind) > 0);
                    assert(occurs_at(content, old, k) && occurs_at(content, old, i));
                },
                None => {
                    assert(count_from(content, old, behind) == 0);
                },
            }
        },
        None => {},
    }
}

/// Replacing the new text by the old undoes a replacement, where the new text
/// then stands in the file once.
pub proof fn law_replace_back(content: Seq<char>, old: Seq<char>, new: Seq<char>)
    requires
        replaced(content, old, new) is Ok,
        forall|i: int, j: int|
            #[trigger] occurs_at(replaced(content, old, new)->Ok_0, new, i) && #[trigger] occurs_at(
                replaced(content, old, new)->Ok_0,
                new,
                j,
            ) ==> i == j,
    ensures
        replaced(replaced(content, old, new)->Ok_0, new, old) == Ok::<Seq<char>, ToolErrorView>(
            content,
        ),
{
    law_replace_touches_the_old_text_alone(content, old, new);
    let (before, behind) = choose|before: Seq<char>, behind: Seq<char>|
        content == before + old + behind && replaced(content, old, new) == Ok::<
            Seq<char>,
            ToolErrorView,
        >(#[trigger] (before + new + behind));
    let after = before + new + behind;
    let i = before.len() as int;
    assert(after.subrange(i, i + new.len()) =~= new);
    assert(occurs_at(after, new, i));
    law_replace_accepts_a_unique_text(after, new, old);
    lemma_first_from(after, new, 0);
    assert(after.take(i) =~= before);
    assert(after.skip(i + new.len()) =~= behind);
}

} // verus!
