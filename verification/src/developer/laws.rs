//! What the developer tools give back of what they are given.

use vstd::prelude::*;

use crate::developer::editor::{
    answer, call_view, command_view, edit_contents, edited, file_block, is_edit,
    law_replace_accepts_a_unique_text, law_replace_refuses_an_ambiguous_text,
    law_view_shows_the_content, missing_parameter, no_file, nothing_to_edit, parsed_call,
    read_failure, replaced, shows, snippet, snippet_block, stat_failure, too_long, viewed,
    written_contents, Edit, EditorCall, EditorCommand, EditorCommandView, FileRead, FileStat,
};
use crate::developer::history::{saves, takes_back, FileHistory};
use crate::developer::paths::{
    accepted, expands_to, extension_in, has_file_uri, is_below, is_file_uri, last_dot, named_parts,
    not_absolute, path_of, plain_base, plain_relative, resolved_view, resolves, slash_names,
    slash_path, uri_view, url_path, url_segments, FilePath, PathKey,
};
use crate::developer::router::{
    developer_tools, hints_text, instructions_text, same_but_history, tool_named, DeveloperRouter,
    DeveloperTool,
};
use crate::developer::screen::{listed_windows, screenshot};
use crate::developer::shell::shown_output;
use crate::developer::wording::{
    GLOBAL_HINTS_HEAD, INSTRUCTIONS_HEAD, LIST_WINDOWS_DESCRIPTION, LIST_WINDOWS_SCHEMA,
    PROJECT_HINTS_HEAD, SCREEN_CAPTURE_DESCRIPTION, SCREEN_CAPTURE_SCHEMA, SHELL_DESCRIPTION,
    SHELL_SCHEMA, TEXT_EDITOR_DESCRIPTION, TEXT_EDITOR_SCHEMA,
};
use crate::encoding::segment_text;
use crate::json::{string_field, Json};
use crate::protocol::{
    content_views, BodyView, Content, ContentView, Role, ToolError, ToolErrorView,
};
use crate::text::{
    contains_text, decimal, first_from, join, lemma_first_from, line_feeds, lines, occurs_at, split,
};
use crate::text_laws::{
    clean_before, free_of, law_contained_texts_can_be_cut_out, law_join_of_split,
    law_split_of_join, separable,
};

verus! {

proof fn lemma_within(before: Seq<char>, p: Seq<char>, behind: Seq<char>, all: Seq<char>)
    requires
        all == before + p + behind,
    ensures
        contains_text(all, p),
{
    law_contained_texts_can_be_cut_out(all, before, p, behind);
}

/// The output of a command reaches both of its readers. As long as it has at most
/// 400000 characters, the answer is one text for the assistant and one for the user,
/// whether the command succeeded or failed: both texts are the output, and behind it
/// whether the command succeeded. A longer output is refused with an error that names
/// the command and the length of the output.
pub proof fn law_output_reaches_both_readers(
    command: Seq<char>,
    output: Seq<char>,
    succeeded: bool,
)
    ensures
        output.len() <= 400_000 ==> (shown_output(command, output, succeeded) matches Ok(v)
            && v.len() == 2 && v[0].audience == Some(seq![Role::Assistant]) && v[1].audience
            == Some(seq![Role::User]) && v[0].priority_tenths is None && v[1].priority_tenths
            == Some(0u8) && v[0].body == v[1].body && (v[0].body matches BodyView::Text(t)
            && contains_text(t, output) && t.take(output.len() as int) == output && t.skip(
            output.len() as int,
        ) == if succeeded {
            "\nThe command succeeded.\n"@
        } else {
            "\nThe command failed.\n"@
        })),
        output.len() > 400_000 ==> (shown_output(command, output, succeeded) matches Err(
            ToolErrorView::ExecutionError(m),
        ) && contains_text(m, command) && contains_text(m, decimal(output.len() as int))
            && contains_text(m, decimal(400_000)) && m == "Shell output from command '"@ + command
            + "' has too many characters ("@ + decimal(output.len() as int)
            + "). Maximum character count is "@ + decimal(400_000) + "."@),
{
    if output.len() <= 400_000 {
        let status = if succeeded {
            "\nThe command succeeded.\n"@
        } else {
            "\nThe command failed.\n"@
        };
        let t = output + status;
        assert(shown_output(command, output, succeeded)->Ok_0[0].body == BodyView::Text(t));
        assert(t.take(output.len() as int) =~= output);
        assert(t.skip(output.len() as int) =~= status);
        assert(t =~= Seq::empty() + output + status);
        lemma_within(Seq::empty(), output, status, t);
    } else {
        let head = "Shell output from command '"@;
        let mid = "' has too many characters ("@;
        let end = "). Maximum character count is "@;
        let length = decimal(output.len() as int);
        let most = decimal(400_000);
        let m = head + command + mid + length + end + most + "."@;
        assert(m =~= head + command + (mid + length + end + most + "."@));
        lemma_within(head, command, mid + length + end + most + "."@, m);
        assert(m =~= (head + command + mid) + length + (end + most + "."@));
        lemma_within(head + command + mid, length, end + most + "."@, m);
        lemma_within(head + command + mid + length + end, most, "."@, m);
    }
}

proof fn lemma_command_names()
    ensures
        "view"@ != "write"@,
        "view"@ != "str_replace"@,
        "view"@ != "undo_edit"@,
        "write"@ != "str_replace"@,
        "write"@ != "undo_edit"@,
        "str_replace"@ != "undo_edit"@,
{
    reveal_strlit("view");
    reveal_strlit("write");
    reveal_strlit("str_replace");
    reveal_strlit("undo_edit");
    assert("view"@.len() == 4);
    assert("write"@.len() == 5);
    assert("str_replace"@.len() == 11);
    assert("undo_edit"@.len() == 9);
}

/// A call to write hands over the text of the file as it stands in the call, character
/// by character, and a call to replace both of its texts. Without them it is refused,
/// and the error names what is missing.
pub proof fn law_calls_hand_over_their_texts(params: Json, path: FilePath)
    requires
        string_field(params, "path"@) is Some,
    ensures
        string_field(params, "command"@) == Some("view"@) ==> parsed_call(params, Ok(path)) == Ok::<
            (FilePath, EditorCommandView),
            ToolErrorView,
        >((path, EditorCommandView::View)),
        string_field(params, "command"@) == Some("undo_edit"@) ==> parsed_call(params, Ok(path))
            == Ok::<(FilePath, EditorCommandView), ToolErrorView>(
            (path, EditorCommandView::UndoEdit),
        ),
        string_field(params, "command"@) == Some("write"@) ==> match string_field(
            params,
            "file_text"@,
        ) {
            Some(f) => parsed_call(params, Ok(path)) matches Ok((p, c)) && p == path && (
            c matches EditorCommandView::Write { file_text } && file_text == f),
            None => parsed_call(params, Ok(path)) == Err::<
                (FilePath, EditorCommandView),
                ToolErrorView,
            >(ToolErrorView::InvalidParameters("Missing 'file_text' parameter"@)),
        },
        string_field(params, "command"@) == Some("str_replace"@) ==> match (
            string_field(params, "old_str"@),
            string_field(params, "new_str"@),
        ) {
            (Some(o), Some(n)) => parsed_call(params, Ok(path)) matches Ok((p, c)) && p == path && (
            c matches EditorCommandView::StrReplace { old_str, new_str } && old_str == o && new_str
                == n),
            (None, _) => parsed_call(params, Ok(path)) == Err::<
                (FilePath, EditorCommandView),
                ToolErrorView,
            >(ToolErrorView::InvalidParameters("Missing 'old_str' parameter"@)),
            (Some(_), None) => parsed_call(params, Ok(path)) == Err::<
                (FilePath, EditorCommandView),
                ToolErrorView,
            >(ToolErrorView::InvalidParameters("Missing 'new_str' parameter"@)),
        },
{
    lemma_command_names();
}

/// A call is accepted only with a command that the editor has, a path that resolves,
/// and the texts that the command needs. Whatever it is read as stands in the call.
pub proof fn law_accepted_calls_say_what_is_done(
    params: Json,
    resolved: Result<FilePath, ToolErrorView>,
)
    ensures
        parsed_call(params, resolved) matches Ok((path, command)) ==> resolved == Ok::<
            FilePath,
            ToolErrorView,
        >(path) && string_field(params, "path"@) is Some && match command {
            EditorCommandView::View => string_field(params, "command"@) == Some("view"@),
            EditorCommandView::Write { file_text } => string_field(params, "command"@) == Some(
                "write"@,
            ) && string_field(params, "file_text"@) == Some(file_text),
            EditorCommandView::StrReplace { old_str, new_str } => string_field(params, "command"@)
                == Some("str_replace"@) && string_field(params, "old_str"@) == Some(old_str)
                && string_field(params, "new_str"@) == Some(new_str),
            EditorCommandView::UndoEdit => string_field(params, "command"@) == Some("undo_edit"@),
        },
        string_field(params, "command"@) is None ==> parsed_call(params, resolved) == Err::<
            (FilePath, EditorCommandView),
            ToolErrorView,
        >(ToolErrorView::InvalidParameters("Missing 'command' parameter"@)),
        string_field(params, "command"@) is Some && string_field(params, "path"@) is None
            ==> parsed_call(params, resolved) == Err::<
            (FilePath, EditorCommandView),
            ToolErrorView,
        >(ToolErrorView::InvalidParameters("Missing 'path' parameter"@)),
        string_field(params, "command"@) is Some && string_field(params, "path"@) is Some ==> (
        resolved matches Err(e) ==> parsed_call(params, resolved) == Err::<
            (FilePath, EditorCommandView),
            ToolErrorView,
        >(e)),
        (missing_parameter(params) is None <==> string_field(params, "command"@) is Some
            && string_field(params, "path"@) is Some),
{
    lemma_command_names();
}

/// A command that the editor does not have is refused, and the error names it.
pub proof fn law_unknown_commands_are_refused(params: Json, path: FilePath, command: Seq<char>)
    requires
        string_field(params, "path"@) is Some,
        string_field(params, "command"@) == Some(command),
        command != "view"@,
        command != "write"@,
        command != "str_replace"@,
        command != "undo_edit"@,
    ensures
        parsed_call(params, Ok(path)) matches Err(ToolErrorView::InvalidParameters(m))
            && contains_text(m, command) && m == "Unknown command '"@ + command + "'"@,
{
    lemma_within(
        "Unknown command '"@,
        command,
        "'"@,
        "Unknown command '"@ + command + "'"@,
    );
}

/// Viewing a file shows what a call to write handed over for it, where the file holds
/// just that: to the assistant the text as it is, to the user within the text shown.
pub proof fn law_view_after_write_shows_the_text(
    params: Json,
    resolved: Result<FilePath, ToolErrorView>,
    path: FilePath,
    file_text: Seq<char>,
    stat: FileStat,
    content: String,
    language: Seq<char>,
    r: Result<Seq<ContentView>, ToolErrorView>,
)
    requires
        string_field(params, "command"@) == Some("write"@),
        string_field(params, "file_text"@) is Some,
        parsed_call(params, resolved) == Ok::<(FilePath, EditorCommandView), ToolErrorView>(
            (path, EditorCommandView::Write { file_text }),
        ),
        content@ == file_text,
        file_text.len() <= 400_000,
        stat matches FileStat::Sized { bytes, kilobytes } && bytes <= 409_600,
        has_file_uri(path),
        shows(path, stat, Ok(content), language, r),
    ensures
        ({
            let f = string_field(params, "file_text"@)->0;
            r matches Ok(v) && v.len() == 2 && (v[0].body matches BodyView::EmbeddedText { uri, text }
                && text == f) && (v[1].body matches BodyView::Text(shown) && contains_text(
                shown,
                f,
            ))
        }),
{
    lemma_command_names();
    assert(stat_failure(path.shown(), stat) is None);
    law_view_shows_the_content(path, stat, content, language, r);
}

/// The views of commands, calls and answers hold what those hold.
pub proof fn law_editor_views_are_faithful(
    c: EditorCommand,
    command: Result<EditorCommand, ToolError>,
    call: Result<EditorCall, ToolError>,
    r: Result<Vec<Content>, ToolError>,
)
    ensures
        match c {
            EditorCommand::View => c@ is View,
            EditorCommand::Write { file_text } => c@ == (EditorCommandView::Write {
                file_text: file_text@,
            }),
            EditorCommand::StrReplace { old_str, new_str } => c@ == (
            EditorCommandView::StrReplace { old_str: old_str@, new_str: new_str@ }),
            EditorCommand::UndoEdit => c@ is UndoEdit,
        },
        match command {
            Ok(c) => command_view(command) == Ok::<EditorCommandView, ToolErrorView>(c@),
            Err(e) => command_view(command) == Err::<EditorCommandView, ToolErrorView>(e@),
        },
        match call {
            Ok(c) => call_view(call) == Ok::<(FilePath, EditorCommandView), ToolErrorView>(
                (c.path, c.command@),
            ),
            Err(e) => call_view(call) == Err::<(FilePath, EditorCommandView), ToolErrorView>(e@),
        },
        match r {
            Ok(v) => answer(r) == Ok::<Seq<ContentView>, ToolErrorView>(content_views(v@)),
            Err(e) => answer(r) == Err::<Seq<ContentView>, ToolErrorView>(e@),
        },
{
}

/// A file may be read where it is one of at most 400 times 1024 bytes. Otherwise the
/// error names the path and the size, or the reason why nothing is known.
pub proof fn law_small_files_may_be_read(path: Seq<char>, stat: FileStat)
    ensures
        stat_failure(path, stat) is None <==> (stat matches FileStat::Sized { bytes, kilobytes }
            && bytes <= 409_600),
        stat is NotAFile ==> (stat_failure(path, stat) matches Some(
            ToolErrorView::ExecutionError(m),
        ) && m == "The path '"@ + path + "' does not exist or is not a file."@),
        stat matches FileStat::Unknown(e) ==> stat_failure(path, stat) == Some(
            ToolErrorView::ExecutionError("Failed to get file metadata: "@ + e@),
        ),
        stat matches FileStat::Sized { bytes, kilobytes } ==> (bytes > 409_600 ==> (
        stat_failure(path, stat) matches Some(ToolErrorView::ExecutionError(m)) && contains_text(
            m,
            path,
        ) && contains_text(m, kilobytes@) && m == "File '"@ + path + "' is too large ("@
            + kilobytes@ + "KB). Maximum size is 400KB to prevent memory issues."@)),
{
    if let FileStat::Sized { bytes, kilobytes } = stat {
        if bytes > 409_600 {
            let end = "KB). Maximum size is 400KB to prevent memory issues."@;
            let m = "File '"@ + path + "' is too large ("@ + kilobytes@ + end;
            assert(m =~= "File '"@ + path + ("' is too large ("@ + kilobytes@ + end));
            lemma_within("File '"@, path, "' is too large ("@ + kilobytes@ + end, m);
            lemma_within("File '"@ + path + "' is too large ("@, kilobytes@, end, m);
        }
    }
}

/// A file as it is shown stands on lines of its own: a heading with its path, a fence
/// with its language, its content and a closing fence.
pub proof fn law_shown_files_stand_in_a_fence(
    path: Seq<char>,
    language: Seq<char>,
    content: Seq<char>,
)
    ensures
        file_block(path, language, content) == join(
            seq!["### "@ + path, "```"@ + language, content, "```"@, Seq::empty()],
            seq!['\n'],
        ),
        snippet_block(language, content) == join(
            seq!["```"@ + language, content, "```"@, Seq::empty()],
            seq!['\n'],
        ),
        contains_text(file_block(path, language, content), path),
        contains_text(file_block(path, language, content), content),
        contains_text(snippet_block(language, content), content),
{
    reveal_strlit("\n");
    reveal_strlit("```");
    reveal_strlit("\n```");
    reveal_strlit("\n```\n");
    let nl = seq!['\n'];
    let l0 = "### "@ + path;
    let l1 = "```"@ + language;
    let empty = Seq::<char>::empty();
    let five = seq![l0, l1, content, "```"@, empty];
    let four = seq![l0, l1, content, "```"@];
    let three = seq![l0, l1, content];
    let two = seq![l0, l1];
    let one = seq![l0];
    assert(five.drop_last() =~= four);
    assert(four.drop_last() =~= three);
    assert(three.drop_last() =~= two);
    assert(two.drop_last() =~= one);
    assert(join(one, nl) == l0);
    assert(join(two, nl) == l0 + nl + l1);
    assert(join(three, nl) == l0 + nl + l1 + nl + content);
    assert(join(four, nl) == l0 + nl + l1 + nl + content + nl + "```"@);
    assert(join(five, nl) == l0 + nl + l1 + nl + content + nl + "```"@ + nl + empty);
    let block = file_block(path, language, content);
    assert(block =~= join(five, nl));
    let b4 = seq![l1, content, "```"@, empty];
    let b3 = seq![l1, content, "```"@];
    let b2 = seq![l1, content];
    let b1 = seq![l1];
    assert(b4.drop_last() =~= b3);
    assert(b3.drop_last() =~= b2);
    assert(b2.drop_last() =~= b1);
    assert(join(b1, nl) == l1);
    assert(join(b2, nl) == l1 + nl + content);
    assert(join(b3, nl) == l1 + nl + content + nl + "```"@);
    assert(join(b4, nl) == l1 + nl + content + nl + "```"@ + nl + empty);
    let inner = snippet_block(language, content);
    assert(inner =~= join(b4, nl));
    let rest = "\n```"@ + language + "\n"@ + content + "\n```\n"@;
    assert(block =~= "### "@ + path + rest);
    lemma_within("### "@, path, rest, block);
    lemma_within(
        "### "@ + path + "\n```"@ + language + "\n"@,
        content,
        "\n```\n"@,
        block,
    );
    lemma_within("```"@ + language + "\n"@, content, "\n```\n"@, inner);
}

/// A file is shown where it has a URL, could be read and holds at most 400000
/// characters: its content goes to the assistant, under the URL, and to the user under
/// the heading. Otherwise the error gives the reason.
pub proof fn law_files_are_shown_whole(
    path: Seq<char>,
    uri: Option<Seq<char>>,
    read: Result<String, String>,
    language: Seq<char>,
)
    ensures
        viewed(path, uri, read, language) is Ok <==> uri is Some && (read matches Ok(content)
            && content@.len() <= 400_000),
        viewed(path, uri, read, language) matches Ok(v) ==> v.len() == 2 && v[0].audience == Some(
            seq![Role::Assistant],
        ) && v[0].priority_tenths is None && v[1].audience == Some(seq![Role::User])
            && v[1].priority_tenths == Some(0u8) && v[0].body == (BodyView::EmbeddedText {
            uri: uri->0,
            text: read->Ok_0@,
        }) && v[1].body == BodyView::Text(file_block(path, language, read->Ok_0@)),
        uri is None ==> viewed(path, uri, read, language) == Err::<
            Seq<ContentView>,
            ToolErrorView,
        >(ToolErrorView::ExecutionError("Invalid file path"@)),
        uri is Some ==> (read matches Err(e) ==> viewed(path, uri, read, language) == Err::<
            Seq<ContentView>,
            ToolErrorView,
        >(ToolErrorView::ExecutionError("Failed to read file: "@ + e@))),
        uri is Some ==> (read matches Ok(content) ==> (content@.len() > 400_000 ==> (
        viewed(path, uri, read, language) matches Err(ToolErrorView::ExecutionError(m))
            && contains_text(m, path) && contains_text(m, decimal(content@.len() as int))
            && contains_text(m, decimal(400_000)) && m == "File '"@ + path
            + "' has too many characters ("@ + decimal(content@.len() as int)
            + "). Maximum character count is "@ + decimal(400_000) + "."@))),
{
    if let Ok(content) = read {
        if content@.len() > 400_000 {
            let head = "File '"@;
            let mid = "' has too many characters ("@;
            let end = "). Maximum character count is "@;
            let length = decimal(content@.len() as int);
            let most = decimal(400_000);
            let m = head + path + mid + length + end + most + "."@;
            assert(m =~= head + path + (mid + length + end + most + "."@));
            lemma_within(head, path, mid + length + end + most + "."@, m);
            assert(m =~= (head + path + mid) + length + (end + most + "."@));
            lemma_within(head + path + mid, length, end + most + "."@, m);
            lemma_within(head + path + mid + length + end, most, "."@, m);
        }
    }
}

/// Writing a file answers to the assistant which file was written, and to the user
/// the path and all of the text.
pub proof fn law_written_files_are_shown(path: FilePath, file_text: Seq<char>)
    ensures
        ({
            let v = written_contents(path, file_text);
            &&& v.len() == 2
            &&& v[0].audience == Some(seq![Role::Assistant])
            &&& v[0].priority_tenths is None
            &&& v[0].body == BodyView::Text("Successfully wrote to "@ + path.shown())
            &&& v[1].audience == Some(seq![Role::User])
            &&& v[1].priority_tenths == Some(2u8)
            &&& v[1].body matches BodyView::Text(t) && contains_text(t, path.shown())
                && contains_text(t, file_text) && t == file_block(
                path.shown(),
                path.language(),
                file_text,
            )
        }),
{
    law_shown_files_stand_in_a_fence(path.shown(), path.language(), file_text);
}

/// The errors of reading and editing name the path or the reason.
pub proof fn law_editor_errors_give_their_reason(path: Seq<char>, e: Seq<char>, length: nat)
    ensures
        read_failure(e) == ToolErrorView::ExecutionError("Failed to read file: "@ + e),
        no_file(path) == ToolErrorView::ExecutionError(
            "The path '"@ + path + "' does not exist or is not a file."@,
        ),
        nothing_to_edit(path) == ToolErrorView::InvalidParameters(
            "File '"@ + path
                + "' does not exist, you can write a new file with the `write` command"@,
        ),
        too_long(path, length) matches ToolErrorView::ExecutionError(m) && contains_text(m, path),
{
    let rest = "' has too many characters ("@ + decimal(length as int)
        + "). Maximum character count is "@ + decimal(400_000) + "."@;
    let m = "File '"@ + path + "' has too many characters ("@ + decimal(length as int)
        + "). Maximum character count is "@ + decimal(400_000) + "."@;
    assert(m =~= "File '"@ + path + rest);
    lemma_within("File '"@, path, rest, m);
}

/// A line of the new content is shown around an edit exactly where it is at most four
/// lines above the line that the edit begins on, or at most four lines below the last
/// one that the new text reaches.
pub proof fn law_snippet_shows_the_lines_around(
    prefix: Seq<char>,
    new: Seq<char>,
    content: Seq<char>,
)
    ensures
        exists|first: int, last: int|
            0 <= first <= last <= lines(content).len() && snippet(prefix, new, content) == join(
                #[trigger] lines(content).subrange(first, last),
                seq!['\n'],
            ) && forall|k: int|
                0 <= k < lines(content).len() ==> (#[trigger] in_range(first, k, last)
                    <==> line_feeds(prefix) - 4 <= k <= line_feeds(prefix) + line_feeds(new) + 4),
{
    reveal_strlit("\n");
    assert("\n"@ =~= seq!['\n']);
    let all = lines(content);
    let at = line_feeds(prefix) as int;
    let total = all.len() as int;
    let begin = if at < 4 {
        0
    } else {
        at - 4
    };
    let end = at + 4 + line_feeds(new) + 1;
    let first = if begin < total {
        begin
    } else {
        total
    };
    let last = if end < total {
        end
    } else {
        total
    };
    assert(snippet(prefix, new, content) == join(all.subrange(first, last), seq!['\n']));
    assert(forall|k: int|
        0 <= k < total ==> (#[trigger] in_range(first, k, last) <==> at - 4 <= k <= at
            + line_feeds(new) + 4));
}

/// `k` is one of the numbers from `first` up to, but without, `last`.
pub open spec fn in_range(first: int, k: int, last: int) -> bool {
    first <= k < last
}

/// An edit puts the new text in the place of the first occurrence of the old one and
/// leaves all else. Its answer goes to the assistant and to the user, and both are shown
/// the same lines around the place of the edit.
pub proof fn law_edits_replace_and_show(
    path: FilePath,
    content: Seq<char>,
    old: Seq<char>,
    new: Seq<char>,
    edit: Edit,
)
    requires
        is_edit(path, content, old, new, edit),
    ensures
        exists|before: Seq<char>, behind: Seq<char>|
            content == #[trigger] (before + old + behind) && edit.new_content@ == before + new
                + behind && (forall|j: int|
                0 <= j < before.len() ==> !#[trigger] occurs_at(content, old, j)) && ({
                let around = snippet(before, new, edit.new_content@);
                let v = content_views(edit.contents@);
                &&& v.len() == 2
                &&& v[0].audience == Some(seq![Role::Assistant])
                &&& v[0].priority_tenths is None
                &&& v[1].audience == Some(seq![Role::User])
                &&& v[1].priority_tenths == Some(2u8)
                &&& v[0].body matches BodyView::Text(t) && contains_text(t, path.shown())
                    && contains_text(t, snippet_block(path.language(), around)) && t
                    == "The file "@ + path.shown()
                    + " has been edited, and the section now reads:\n"@ + snippet_block(
                    path.language(),
                    around,
                )
                    + "\nReview the changes above for errors. Undo and edit the file again if necessary!\n"@
                &&& v[1].body == BodyView::Text(snippet_block(path.language(), around))
            }),
{
    lemma_first_from(content, old, 0);
    assert(first_from(content, old, 0) is Some) by {
        if old.len() == 0 {
            assert(content.subrange(0, 0) =~= old);
            assert(occurs_at(content, old, 0));
        }
    }
    let i = first_from(content, old, 0)->0;
    let before = content.take(i);
    let behind = content.skip(i + old.len());
    assert(content =~= before + content.subrange(i, i + old.len()) + behind);
    assert(content == before + old + behind);
    let around = snippet(before, new, edit.new_content@);
    let block = snippet_block(path.language(), around);
    let mid = " has been edited, and the section now reads:\n"@;
    let end =
        "\nReview the changes above for errors. Undo and edit the file again if necessary!\n"@;
    let t = "The file "@ + path.shown() + mid + block + end;
    assert(t =~= "The file "@ + path.shown() + (mid + block + end));
    lemma_within("The file "@, path.shown(), mid + block + end, t);
    lemma_within("The file "@ + path.shown() + mid, block, end, t);
    assert(edit_contents(path, around)[0].body == BodyView::Text(t));
}

/// A replacement is refused as ambiguous where the old text stands in the content
/// twice without overlap. In an empty text the empty text is replaced; in any other it
/// stands more than once.
pub proof fn law_replace_tells_why_it_refuses(
    content: Seq<char>,
    old: Seq<char>,
    new: Seq<char>,
    i: int,
    j: int,
)
    ensures
        occurs_at(content, old, i) && occurs_at(content, old, j) && i + old.len() <= j && i != j
            ==> replaced(content, old, new) == Err::<Seq<char>, ToolErrorView>(
            ToolErrorView::InvalidParameters(
                "'old_str' must appear exactly once in the file, but it appears multiple times"@,
            ),
        ),
        !contains_text(content, old) ==> replaced(content, old, new) == Err::<
            Seq<char>,
            ToolErrorView,
        >(
            ToolErrorView::InvalidParameters(
                "'old_str' must appear exactly once in the file, but it does not appear in the file. Make sure the string exactly matches existing file content, including whitespace!"@,
            ),
        ),
        content.len() == 0 && old.len() == 0 ==> replaced(content, old, new) == Ok::<
            Seq<char>,
            ToolErrorView,
        >(new),
{
    law_replace_accepts_a_unique_text(content, old, new);
    if occurs_at(content, old, i) && occurs_at(content, old, j) && i + old.len() <= j && i != j {
        if old.len() > 0 {
            law_replace_refuses_an_ambiguous_text(content, old, new);
            assert(contains_text(content, old));
            assert(j >= i + old.len());
            assert(!(replaced(content, old, new) is Ok));
            lemma_first_from(content, old, 0);
        }
    }
    if content.len() == 0 && old.len() == 0 {
        assert(content.subrange(0, 0) =~= old);
        assert(occurs_at(content, old, 0));
        assert(content.take(0) + new + content.skip(0) =~= new);
    }
}

/// Only a file that is there and could be read is edited; what becomes of it depends
/// on its content alone.
pub proof fn law_only_readable_files_are_edited(
    path: Seq<char>,
    file: FileRead,
    old: Seq<char>,
    new: Seq<char>,
)
    ensures
        match file {
            FileRead::Missing => edited(path, file, old, new) == Err::<Seq<char>, ToolErrorView>(
                ToolErrorView::InvalidParameters(
                    "File '"@ + path
                        + "' does not exist, you can write a new file with the `write` command"@,
                ),
            ),
            FileRead::Unreadable(e) => edited(path, file, old, new) == Err::<
                Seq<char>,
                ToolErrorView,
            >(ToolErrorView::ExecutionError("Failed to read file: "@ + e@)),
            FileRead::Text(content) => edited(path, file, old, new) == replaced(
                content@,
                old,
                new,
            ),
        },
{
}

/// Saving adds one version to a file, behind the older ones, and leaves the versions
/// of other files. Taking back removes the last version of a file, and hands it out.
pub proof fn law_versions_are_a_stack(
    before: FileHistory,
    after: FileHistory,
    key: PathKey,
    other: PathKey,
    content: Seq<char>,
)
    ensures
        saves(before, after, key, content) ==> after.versions(key).len() == before.versions(
            key,
        ).len() + 1 && after.versions(key).last() == content && after.versions(key).drop_last()
            == before.versions(key) && (other != key ==> after.versions(other) == before.versions(
            other,
        )),
        takes_back(before, after, key, content) ==> before.versions(key).len() == after.versions(
            key,
        ).len() + 1 && before.versions(key).last() == content && before.versions(key).drop_last()
            == after.versions(key) && (other != key ==> after.versions(other) == before.versions(
            other,
        )),
{
    if saves(before, after, key, content) {
        assert(after.versions(key) == before.versions(key).push(content));
        assert(before.versions(key).push(content).drop_last() =~= before.versions(key));
    }
}

/// A path that is accepted is absolute and stands for what was given: for the text
/// itself or, where a leading tilde stands for the home directory, for the home
/// directory with the rest of the text. A path that is not accepted is named in the
/// error as it was given.
pub proof fn law_accepted_paths_are_those_given(
    path_str: Seq<char>,
    home: Option<Seq<char>>,
    cwd: Seq<char>,
    r: Result<FilePath, ToolErrorView>,
)
    requires
        resolves(path_str, home, cwd, r),
    ensures
        r matches Ok(path) ==> path.is_absolute() && path.well_formed(),
        r matches Ok(path) ==> (path_str.len() == 0 || path_str[0] != '~' || home is None
            ==> path.shown() == path_str),
        r matches Ok(path) ==> (path_str.len() > 0 && path_str[0] == '~' && home is Some && (
        path_str.len() == 1 || path_str[1] == '/') ==> path.shown() == home->0 + path_str.skip(1)),
        r matches Ok(path) ==> (path_str.len() > 1 && path_str[0] == '~' && path_str[1] != '/'
            && path_str[1] != '\\' ==> path.shown() == path_str),
        r matches Err(e) ==> (e matches ToolErrorView::InvalidParameters(m) && contains_text(
            m,
            path_str,
        )),
{
    let (path, suggestion) = choose|path: FilePath, suggestion: Seq<char>|
        path_of(path_str, home, path)
            && is_below(cwd, path.shown(), suggestion) && r
            == #[trigger] accepted(path_str, path, suggestion);
    if r is Err {
        let mid = " is not an absolute path, did you possibly mean "@;
        let m = not_absolute(path_str, suggestion);
        assert(m =~= "The path "@ + path_str + (mid + suggestion + "?"@));
        lemma_within("The path "@, path_str, mid + suggestion + "?"@, m);
    }
}

/// An absolute path is accepted as it is. Any other is refused with an error that names
/// the text and the suggestion.
pub proof fn law_absolute_paths_are_accepted(
    path_str: Seq<char>,
    path: FilePath,
    suggestion: Seq<char>,
    r: Result<FilePath, ToolError>,
    uri: Result<String, ()>,
)
    ensures
        path.is_absolute() ==> accepted(path_str, path, suggestion) == Ok::<
            FilePath,
            ToolErrorView,
        >(path),
        !path.is_absolute() ==> accepted(path_str, path, suggestion) == Err::<
            FilePath,
            ToolErrorView,
        >(
            ToolErrorView::InvalidParameters(
                "The path "@ + path_str + " is not an absolute path, did you possibly mean "@
                    + suggestion + "?"@,
            ),
        ),
        match r {
            Ok(p) => resolved_view(r) == Ok::<FilePath, ToolErrorView>(p),
            Err(e) => resolved_view(r) == Err::<FilePath, ToolErrorView>(e@),
        },
        match uri {
            Ok(u) => uri_view(uri) == Some(u@),
            Err(_) => uri_view(uri) is None,
        },
{
}

/// Of parts put one behind the other, the names are those among the first and then those
/// among the second. An empty part and a dot are no names; every other part is one.
pub proof fn law_named_parts_join(a: Seq<Seq<char>>, b: Seq<Seq<char>>, part: Seq<char>)
    ensures
        named_parts(a + b) == named_parts(a) + named_parts(b),
        named_parts(seq![part]) == if part.len() == 0 || part == seq!['.'] {
            Seq::empty()
        } else {
            seq![part]
        },
    decreases b.len(),
{
    assert(seq![part].drop_last() =~= Seq::<Seq<char>>::empty());
    assert(named_parts(Seq::empty()) =~= Seq::<Seq<char>>::empty());
    assert(Seq::empty().push(part) =~= seq![part]);
    if b.len() == 0 {
        assert(a + b =~= a);
        assert(named_parts(a) + named_parts(b) =~= named_parts(a));
    } else {
        assert((a + b).drop_last() =~= a + b.drop_last());
        law_named_parts_join(a, b.drop_last(), part);
        assert(named_parts(a + b) =~= named_parts(a) + named_parts(b));
    }
}

/// The extension of a path is what stands behind the last dot of its last name. A name
/// that begins with its only dot, or has none, gives no extension.
pub proof fn law_extensions_stand_behind_the_last_dot(
    names: Seq<Seq<char>>,
    stem: Seq<char>,
    ext: Seq<char>,
)
    requires
        forall|i: int| 0 <= i < ext.len() ==> ext[i] != '.',
    ensures
        stem.len() > 0 && !(stem == seq!['.'] && ext.len() == 0) ==> extension_in(
            names.push(stem + seq!['.'] + ext),
        ) == Some(ext),
        extension_in(names.push(seq!['.'] + ext)) is None,
        extension_in(names.push(ext)) is None,
        extension_in(Seq::empty()) is None,
        extension_in(names.push(seq!['.', '.'])) is None,
{
    let name = stem + seq!['.'] + ext;
    lemma_last_dot(stem, ext);
    assert(name.skip(stem.len() as int + 1) =~= ext);
    if name == seq!['.', '.'] {
        assert(stem.len() + ext.len() == 1);
        if ext.len() == 0 {
            assert(stem =~= seq![name[0]]);
        } else {
            assert(name[1] == ext[0]);
        }
    }
    assert(names.push(name).last() == name);
    lemma_last_dot(Seq::empty(), ext);
    assert(Seq::<char>::empty() + seq!['.'] + ext =~= seq!['.'] + ext);
    lemma_no_dot(ext);
}

proof fn lemma_last_dot(stem: Seq<char>, ext: Seq<char>)
    requires
        forall|i: int| 0 <= i < ext.len() ==> ext[i] != '.',
    ensures
        last_dot(stem + seq!['.'] + ext) == stem.len(),
    decreases ext.len(),
{
    let name = stem + seq!['.'] + ext;
    if ext.len() > 0 {
        assert(name.last() == ext[ext.len() - 1]);
        assert(name.drop_last() =~= stem + seq!['.'] + ext.drop_last());
        lemma_last_dot(stem, ext.drop_last());
    } else {
        assert(name.last() == '.');
    }
}

proof fn lemma_no_dot(s: Seq<char>)
    requires
        forall|i: int| 0 <= i < s.len() ==> s[i] != '.',
    ensures
        last_dot(s) < 0,
    decreases s.len(),
{
    if s.len() > 0 {
        lemma_no_dot(s.drop_last());
    }
}

/// The language of a file is its extension, and empty where it has none. The URL of a
/// path puts each name, as URLs write it, behind a slash.
pub proof fn law_urls_hold_each_name(path: FilePath, names: Seq<Seq<char>>, name: Seq<char>)
    ensures
        match path.suffix() {
            Some(ext) => path.language() == ext,
            None => path.language().len() == 0,
        },
        url_path(Seq::empty()) == seq!['/'],
        url_segments(Seq::empty()) == Seq::<char>::empty(),
        url_segments(names.push(name)) == url_segments(names) + seq!['/'] + segment_text(name),
        url_path(names.push(name)) == url_segments(names) + seq!['/'] + segment_text(name),
{
    assert(names.push(name).drop_last() =~= names);
}

/// The tools go by four names, each of them by its own, and are offered in one order.
pub proof fn law_tools_go_by_their_names(name: Seq<char>)
    ensures
        tool_named(name) == Some(DeveloperTool::Shell) <==> name == "shell"@,
        tool_named(name) == Some(DeveloperTool::TextEditor) <==> name == "text_editor"@,
        tool_named(name) == Some(DeveloperTool::ListWindows) <==> name == "list_windows"@,
        tool_named(name) == Some(DeveloperTool::ScreenCapture) <==> name == "screen_capture"@,
        developer_tools().len() == 4,
        developer_tools()[0].name == "shell"@,
        developer_tools()[1].name == "text_editor"@,
        developer_tools()[2].name == "list_windows"@,
        developer_tools()[3].name == "screen_capture"@,
{
    reveal_strlit("shell");
    reveal_strlit("text_editor");
    reveal_strlit("list_windows");
    reveal_strlit("screen_capture");
    assert("shell"@.len() == 5);
    assert("text_editor"@.len() == 11);
    assert("list_windows"@.len() == 12);
    assert("screen_capture"@.len() == 14);
}

/// Each tool is offered with its own description and schema.
pub proof fn law_tools_are_described()
    ensures
        developer_tools()[0].description == SHELL_DESCRIPTION@,
        developer_tools()[0].input_schema == SHELL_SCHEMA@,
        developer_tools()[1].description == TEXT_EDITOR_DESCRIPTION@,
        developer_tools()[1].input_schema == TEXT_EDITOR_SCHEMA@,
        developer_tools()[2].description == LIST_WINDOWS_DESCRIPTION@,
        developer_tools()[2].input_schema == LIST_WINDOWS_SCHEMA@,
        developer_tools()[3].description == SCREEN_CAPTURE_DESCRIPTION@,
        developer_tools()[3].input_schema == SCREEN_CAPTURE_SCHEMA@,
{
}

/// The instructions name the system and the directory, and are the same whatever the
/// hints, but for what stands behind. The hints for all projects come before those for
/// the project.
pub proof fn law_instructions_grow_by_the_hints(
    os: Seq<char>,
    cwd: Seq<char>,
    global: Seq<char>,
    local: Seq<char>,
)
    ensures
        contains_text(instructions_text(os, cwd, None, None), os),
        contains_text(instructions_text(os, cwd, None, None), cwd),
        instructions_text(os, cwd, Some(global), None) == instructions_text(os, cwd, None, None)
            + seq!['\n'] + GLOBAL_HINTS_HEAD@ + global,
        instructions_text(os, cwd, None, Some(local)) == instructions_text(os, cwd, None, None)
            + seq!['\n'] + PROJECT_HINTS_HEAD@ + local,
        instructions_text(os, cwd, Some(global), Some(local)) == instructions_text(
            os,
            cwd,
            Some(global),
            None,
        ) + seq!['\n', '\n'] + PROJECT_HINTS_HEAD@ + local,
{
    reveal_strlit("\n");
    reveal_strlit("\n\n");
    reveal_strlit(
        "\n### Global Hints\nThe developer extension includes some global hints that apply to all projects & directories.\n",
    );
    reveal_strlit(
        "### Project Hints\nThe developer extension includes some hints for working on the project in this directory.\n",
    );
    assert(GLOBAL_HINTS_HEAD@.len() > 0);
    assert(PROJECT_HINTS_HEAD@.len() > 0);
    let none = instructions_text(os, cwd, None, None);
    assert(hints_text(None, None).len() == 0);
    let rest = "\ncurrent directory: "@ + cwd + "\n\n"@;
    assert(none =~= INSTRUCTIONS_HEAD@ + os + rest);
    lemma_within(INSTRUCTIONS_HEAD@, os, rest, none);
    lemma_within(INSTRUCTIONS_HEAD@ + os + "\ncurrent directory: "@, cwd, "\n\n"@, none);
    assert(instructions_text(os, cwd, Some(global), None) =~= none + seq!['\n']
        + GLOBAL_HINTS_HEAD@ + global);
    assert(instructions_text(os, cwd, None, Some(local)) =~= none + seq!['\n']
        + PROJECT_HINTS_HEAD@ + local);
    assert(instructions_text(os, cwd, Some(global), Some(local)) =~= instructions_text(
        os,
        cwd,
        Some(global),
        None,
    ) + seq!['\n', '\n'] + PROJECT_HINTS_HEAD@ + local);
}

/// Two routers that differ in their histories alone offer the same tools and tell the
/// same of themselves.
pub proof fn law_same_routers_offer_the_same(a: DeveloperRouter, b: DeveloperRouter)
    ensures
        same_but_history(a, b) <==> a.offers() == b.offers() && a.tells() == b.tells(),
{
}

/// The list of windows names each of them, in order and on a line of its own, to the
/// assistant and to the user alike.
pub proof fn law_windows_are_listed_by_title(titles: Seq<Seq<char>>, title: Seq<char>)
    ensures
        ({
            let v = listed_windows(titles);
            &&& v.len() == 2
            &&& v[0].audience == Some(seq![Role::Assistant])
            &&& v[0].priority_tenths is None
            &&& v[1].audience == Some(seq![Role::User])
            &&& v[1].priority_tenths == Some(0u8)
            &&& v[0].body == v[1].body
            &&& v[0].body is Text
        }),
        listed_windows(Seq::empty())[0].body == BodyView::Text("Available windows:\n"@),
        listed_windows(seq![title])[0].body == BodyView::Text("Available windows:\n"@ + title),
        titles.len() > 0 ==> listed_windows(titles.push(title))[0].body == BodyView::Text(
            listed_windows(titles)[0].body->Text_0 + seq!['\n'] + title,
        ),
{
    reveal_strlit("\n");
    assert("\n"@ =~= seq!['\n']);
    let head = "Available windows:\n"@;
    assert(head + Seq::empty() =~= head);
    assert(titles.push(title).drop_last() =~= titles);
    if titles.len() > 0 {
        assert(head + (join(titles, "\n"@) + "\n"@ + title) =~= head + join(titles, "\n"@) + seq![
            '\n',
        ] + title);
    }
}

/// A screenshot answers with a word to the assistant and with the image, whose data is
/// handed on as it is.
pub proof fn law_screenshots_hand_over_the_image(data: Seq<char>)
    ensures
        screenshot(data).len() == 2,
        screenshot(data)[0].body == BodyView::Text("Screenshot captured"@),
        screenshot(data)[0].audience == Some(seq![Role::Assistant]),
        screenshot(data)[1].body == (BodyView::Image { data, mime_type: "image/png"@ }),
        screenshot(data)[1].audience is None,
        screenshot(data)[1].priority_tenths == Some(0u8),
{
}

/// A leading tilde, alone or before a slash, stands for the home directory, where there
/// is one. Every other text, and every text where no home directory is known, stands
/// for itself; of one that begins with a tilde and a backslash either may hold.
pub proof fn law_tilde_stands_for_the_home_directory(
    s: Seq<char>,
    home: Seq<char>,
    r: Seq<char>,
)
    ensures
        expands_to(s, Some(home), r) && (s.len() == 0 || s[0] != '~') ==> r == s,
        expands_to(s, None, r) ==> r == s,
        expands_to(seq!['~'], Some(home), r) ==> r == home,
        expands_to(seq!['~', '/'] + s, Some(home), r) ==> r == home + seq!['/'] + s,
        s.len() > 1 && s[0] == '~' && s[1] != '/' && s[1] != '\\' ==> (expands_to(
            s,
            Some(home),
            r,
        ) ==> r == s),
{
    let alone = seq!['~'];
    assert(home + alone.skip(1) =~= home);
    let below = seq!['~', '/'] + s;
    assert(home + below.skip(1) =~= home + seq!['/'] + s);
}

proof fn lemma_free_is_clean(part: Seq<char>, c: char)
    requires
        free_of(part, seq![c]),
    ensures
        clean_before(part, seq![c]),
{
    let p = seq![c];
    let s = part + p;
    let n = part.len() as int;
    assert(s.subrange(n, n + 1) =~= p);
    assert(occurs_at(s, p, n));
    lemma_first_from(s, p, 0);
    let i = first_from(s, p, 0)->0;
    if i < n {
        assert(part.subrange(i, i + 1) =~= s.subrange(i, i + 1));
        assert(occurs_at(part, p, i));
    }
}

/// The names of a path are those before a slash and then those behind it. A text
/// without a slash is its own name, unless it is empty or a dot.
pub proof fn law_slashes_part_the_names(a: Seq<char>, b: Seq<char>, name: Seq<char>)
    requires
        !name.contains('/'),
    ensures
        slash_names(a + seq!['/'] + b) == slash_names(a) + slash_names(b),
        slash_names(name) == if name.len() == 0 || name == seq!['.'] {
            Seq::empty()
        } else {
            seq![name]
        },
{
    let p = seq!['/'];
    law_join_of_split(a, p);
    law_join_of_split(b, p);
    let left = split(a, p);
    let right = split(b, p);
    let parts = left + right;
    lemma_free_is_clean(left.last(), '/');
    assert forall|k: int| 0 <= k < parts.len() - 1 implies #[trigger] clean_before(parts[k], p) by {
        if k < left.len() - 1 {
            assert(parts[k] == left[k]);
            assert(clean_before(left[k], p));
        } else if k >= left.len() {
            assert(parts[k] == right[k - left.len()]);
            assert(clean_before(right[k - left.len()], p));
        }
    }
    assert(parts.last() == right.last());
    assert(separable(parts, p));
    lemma_join_of_both(left, right, p);
    law_split_of_join(parts, p);
    law_named_parts_join(left, right, name);
    assert(free_of(name, p)) by {
        assert forall|i: int| !occurs_at(name, p, i) by {
            if occurs_at(name, p, i) {
                assert(name.subrange(i, i + 1)[0] == name[i]);
                assert(name.contains(name[i]));
            }
        }
    }
    let one = seq![name];
    assert(separable(one, p));
    assert(join(one, p) == name);
    law_split_of_join(one, p);
}

proof fn lemma_join_of_both(a: Seq<Seq<char>>, b: Seq<Seq<char>>, p: Seq<char>)
    requires
        a.len() > 0,
        b.len() > 0,
    ensures
        join(a + b, p) == join(a, p) + p + join(b, p),
    decreases b.len(),
{
    let all = a + b;
    if b.len() == 1 {
        assert(all.drop_last() =~= a);
    } else {
        assert(all.drop_last() =~= a + b.drop_last());
        lemma_join_of_both(a, b.drop_last(), p);
        assert(join(all, p) =~= join(a, p) + p + join(b, p));
    }
}

/// Showing a file either gives all of its content, to the assistant as it is and to the
/// user below its path, or an error. A file that may not be read, could not be read or
/// holds too many characters gives an error, whatever its URL.
pub proof fn law_shown_whole_or_refused(
    path: FilePath,
    stat: FileStat,
    read: Result<String, String>,
    language: Seq<char>,
    r: Result<Seq<ContentView>, ToolErrorView>,
)
    requires
        shows(path, stat, read, language, r),
    ensures
        !(stat matches FileStat::Sized { bytes, kilobytes } && bytes <= 409_600) ==> r is Err
            && stat_failure(path.shown(), stat) == Some(r->Err_0),
        read is Err ==> r is Err,
        read matches Ok(content) ==> (content@.len() > 400_000 ==> r is Err),
        (stat matches FileStat::Sized { bytes, kilobytes } && bytes <= 409_600) && has_file_uri(
            path,
        ) ==> (r is Ok <==> (read matches Ok(content) && content@.len() <= 400_000)),
        (stat matches FileStat::Sized { bytes, kilobytes } && bytes <= 409_600) && has_file_uri(
            path,
        ) ==> (read matches Err(e) ==> r == Err::<Seq<ContentView>, ToolErrorView>(
            ToolErrorView::ExecutionError("Failed to read file: "@ + e@),
        )),
        r matches Ok(v) ==> v.len() == 2 && v[0].audience == Some(seq![Role::Assistant])
            && v[1].audience == Some(seq![Role::User]) && (
        v[0].body matches BodyView::EmbeddedText { uri, text } && text == read->Ok_0@) && (
        v[1].body matches BodyView::Text(t) && t == file_block(
            path.shown(),
            language,
            read->Ok_0@,
        )),
{
    law_small_files_may_be_read(path.shown(), stat);
    if stat_failure(path.shown(), stat) is None {
        let uri = choose|uri: Option<Seq<char>>|
            is_file_uri(path.shown(), uri) && (has_file_uri(path) ==> uri
                is Some) && r == #[trigger] viewed(path.shown(), uri, read, language);
        law_files_are_shown_whole(path.shown(), uri, read, language);
    }
}

/// A text is refused only where the path that it stands for is not absolute.
pub proof fn law_only_paths_that_are_not_absolute_are_refused(
    path_str: Seq<char>,
    home: Option<Seq<char>>,
    cwd: Seq<char>,
    r: Result<FilePath, ToolErrorView>,
)
    requires
        resolves(path_str, home, cwd, r),
    ensures
        r is Err ==> exists|path: FilePath|
            expands_to(path_str, home, #[trigger] path.shown()) && path.well_formed()
                && !path.is_absolute(),
{
    let (path, suggestion) = choose|path: FilePath, suggestion: Seq<char>|
        path_of(path_str, home, path)
            && is_below(cwd, path.shown(), suggestion) && r
            == #[trigger] accepted(path_str, path, suggestion);
    if r is Err {
        assert(expands_to(path_str, home, path.shown()));
    }
}

/// A path that starts with one slash has the extension that stands behind the last dot
/// of its last name, and code blocks of the file are marked with it. Slashes at the end
/// change neither that nor which path it is.
pub proof fn law_paths_have_the_extension_of_their_name(
    path: FilePath,
    slashed: FilePath,
    dir: Seq<char>,
    stem: Seq<char>,
    ext: Seq<char>,
)
    requires
        path.well_formed(),
        slashed.well_formed(),
        path.shown() == dir + seq!['/'] + (stem + seq!['.'] + ext),
        slashed.shown() == path.shown() + seq!['/'],
        slash_path(path.shown()),
        slash_path(slashed.shown()),
        stem.len() > 0,
        stem != seq!['.'],
        !(stem + seq!['.'] + ext).contains('/'),
        !ext.contains('.'),
    ensures
        path.suffix() == Some(ext),
        path.language() == ext,
        slashed.key() == path.key(),
        slashed.suffix() == path.suffix(),
{
    let name = stem + seq!['.'] + ext;
    let empty = Seq::<char>::empty();
    assert forall|i: int| 0 <= i < ext.len() implies ext[i] != '.' by {
        assert(ext.contains(ext[i]));
    }
    assert(name.len() > 1);
    law_slashes_part_the_names(dir, name, name);
    let names = slash_names(dir);
    assert(slash_names(path.shown()) =~= names.push(name));
    law_extensions_stand_behind_the_last_dot(names, stem, ext);
    law_slashes_part_the_names(path.shown(), empty, empty);
    assert(path.shown() + seq!['/'] + empty =~= slashed.shown());
    assert(slash_names(slashed.shown()) =~= slash_names(path.shown()));
}

/// Which paths all platforms read alike goes by their first, second and last characters
/// and by the backslashes and colons in them: a slash before a text without slashes and
/// backslashes gives a path with one leading slash, and a text that begins with no slash
/// and holds neither is relative. A path with a leading slash has a URL where it is
/// absolute.
pub proof fn law_plain_paths_are_told_by_their_characters(s: Seq<char>, path: FilePath)
    ensures
        slash_path(seq!['/'] + s) <==> (s.len() > 0 ==> s[0] != '/') && !s.contains('\\'),
        s.len() > 0 && s[0] != '/' ==> !slash_path(s),
        plain_relative(s) <==> s.len() > 0 && s[0] != '/' && !s.contains(':') && !s.contains(
            '\\',
        ),
        plain_base(s) <==> s.len() > 0 && s.last() != '/' && s.last() != ':' && !s.contains('\\'),
        has_file_uri(path) <==> slash_path(path.shown()) && path.is_absolute(),
{
    let all = seq!['/'] + s;
    if s.contains('\\') {
        let i = choose|i: int| 0 <= i < s.len() && s[i] == '\\';
        assert(all[i + 1] == '\\');
    }
    if all.contains('\\') {
        let i = choose|i: int| 0 <= i < all.len() && all[i] == '\\';
        assert(s[i - 1] == '\\');
    }
}

} // verus!
