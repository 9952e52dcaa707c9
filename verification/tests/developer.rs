use std::collections::HashMap;

use goose::developer::editor::{
    check_file_size, editor_call, replace_in_file, text_editor, text_editor_path, text_editor_view,
    text_editor_write, view_contents, write_failure, EditorCommand, FileRead, FileStat,
};
use goose::developer::history::FileHistory;
use goose::developer::paths::{accept_path, expand_path, resolve_path, FilePath};
use goose::developer::router::{undo_contents, DeveloperRouter, DeveloperTool};
use goose::developer::screen::{
    capture_failure, capture_target, find_monitor, find_window, image_contents, list_windows,
    narrower_width, screen_capture, CaptureTarget,
};
use goose::developer::shell::{bash, command_line, output_contents, shell_command};
use goose::json::Json;
use goose::protocol::{Body, Content, Role, ToolError};

fn object(fields: &[(&str, &str)]) -> Json {
    Json::Object(
        fields.iter().map(|(k, v)| (k.to_string(), Json::Text(v.to_string()))).collect(),
    )
}

fn file_path(text: &str) -> FilePath {
    FilePath::new(text)
}

fn text_for(contents: &[Content], role: Role) -> String {
    let content = contents
        .iter()
        .find(|c| c.audience.as_ref().is_some_and(|roles| roles.contains(&role)))
        .unwrap();
    match &content.body {
        Body::Text(t) => t.clone(),
        Body::EmbeddedText { text, .. } => text.clone(),
        Body::Image { .. } => panic!("no text"),
    }
}

/// Files by their paths.
struct Disk {
    files: HashMap<String, String>,
}

impl Disk {
    fn new() -> Disk {
        Disk { files: HashMap::new() }
    }

    fn stat(&self, path: &str) -> FileStat {
        match self.files.get(path) {
            None => FileStat::NotAFile,
            Some(content) => FileStat::Sized {
                bytes: content.len() as u64,
                kilobytes: format!("{:.2}", content.len() as f64 / 1024.0),
            },
        }
    }

    fn read(&self, path: &str) -> FileRead {
        match self.files.get(path) {
            None => FileRead::Missing,
            Some(content) => FileRead::Text(content.clone()),
        }
    }
}

fn call_text_editor(
    router: &mut DeveloperRouter,
    disk: &mut Disk,
    params: Json,
) -> Result<Vec<Content>, ToolError> {
    assert_eq!(router.call_tool("text_editor").unwrap(), DeveloperTool::TextEditor);
    let call = text_editor(&params, Some("/home/user"), "/work")?;
    let path = call.path;
    let name = path.text().to_string();
    match call.command {
        EditorCommand::View => {
            let stat = disk.stat(&name);
            check_file_size(&path, &stat)?;
            text_editor_view(&path, &stat, Ok(disk.files[&name].clone()), "text")
        }
        EditorCommand::Write { file_text } => {
            disk.files.insert(name, file_text.clone());
            text_editor_write(&path, &file_text, Ok(()))
        }
        EditorCommand::StrReplace { old_str, new_str } => {
            let file = disk.read(&name);
            let edit = router.text_editor_replace(&path, &file, &old_str, &new_str)?;
            disk.files.insert(name, edit.new_content);
            Ok(edit.contents)
        }
        EditorCommand::UndoEdit => {
            let content = router.text_editor_undo(&path)?;
            disk.files.insert(name, content);
            undo_contents(Ok(()))
        }
    }
}

fn small() -> FileStat {
    FileStat::Sized { bytes: 9, kilobytes: "0.01".to_string() }
}

fn plain_router() -> DeveloperRouter {
    DeveloperRouter::new("linux", "/work", None, None)
}

#[test]
fn test_global_goosehints() {
    let router = DeveloperRouter::new(
        "linux",
        "/work",
        Some("These are my global goose hints.".to_string()),
        None,
    );
    let instructions = router.instructions();

    assert!(instructions.contains("### Global Hints"));
    assert!(instructions.contains("my global goose hints."));
}

#[test]
fn test_goosehints_when_present() {
    let router =
        DeveloperRouter::new("linux", "/work", None, Some("Test hint content".to_string()));
    let instructions = router.instructions();

    assert!(instructions.contains("Test hint content"));
}

#[test]
fn test_goosehints_when_missing() {
    let router = DeveloperRouter::new("linux", "/work", None, None);
    let instructions = router.instructions();

    assert!(!instructions.contains("Project Hints"));
}

#[test]
fn test_shell_missing_parameters() {
    let router = plain_router();
    assert_eq!(router.call_tool("shell").unwrap(), DeveloperTool::Shell);
    let result = bash(&Json::Object(vec![]), Ok((vec![], true)));

    assert!(result.is_err());
    let err = result.err().unwrap();
    assert!(matches!(err, ToolError::InvalidParameters(_)));
}

#[test]
fn test_text_editor_size_limits() {
    let mut router = plain_router();
    let mut disk = Disk::new();

    // Test file size limit
    {
        let large_file_str = "/tmp/large.txt";
        let content = "x".repeat(3 * 1024 * 1024); // 3MB
        disk.files.insert(large_file_str.to_string(), content);

        let result = call_text_editor(
            &mut router,
            &mut disk,
            object(&[("command", "view"), ("path", large_file_str)]),
        );

        assert!(result.is_err());
        let err = result.err().unwrap();
        assert!(matches!(err, ToolError::ExecutionError(_)));
        assert!(err.message().contains("too large"));
    }

    // Test character count limit
    {
        let many_chars_str = "/tmp/many_chars.txt";
        let content = "x".repeat(405_000);
        disk.files.insert(many_chars_str.to_string(), content);

        let result = call_text_editor(
            &mut router,
            &mut disk,
            object(&[("command", "view"), ("path", many_chars_str)]),
        );

        assert!(result.is_err());
        let err = result.err().unwrap();
        assert!(matches!(err, ToolError::ExecutionError(_)));
        assert!(err.message().contains("too many characters"));
    }
}

#[test]
fn test_text_editor_write_and_view_file() {
    let mut router = plain_router();
    let mut disk = Disk::new();
    let file_path_str = "/tmp/test.txt";

    // Create a new file
    call_text_editor(
        &mut router,
        &mut disk,
        object(&[("command", "write"), ("path", file_path_str), ("file_text", "Hello, world!")]),
    )
    .unwrap();

    // View the file
    let view_result = call_text_editor(
        &mut router,
        &mut disk,
        object(&[("command", "view"), ("path", file_path_str)]),
    )
    .unwrap();

    assert!(!view_result.is_empty());
    let text = text_for(&view_result, Role::User);
    assert!(text.contains("Hello, world!"));
}

#[test]
fn test_text_editor_str_replace() {
    let mut router = plain_router();
    let mut disk = Disk::new();
    let file_path_str = "/tmp/test.txt";

    // Create a new file
    call_text_editor(
        &mut router,
        &mut disk,
        object(&[("command", "write"), ("path", file_path_str), ("file_text", "Hello, world!")]),
    )
    .unwrap();

    // Replace string
    let replace_result = call_text_editor(
        &mut router,
        &mut disk,
        object(&[
            ("command", "str_replace"),
            ("path", file_path_str),
            ("old_str", "world"),
            ("new_str", "Rust"),
        ]),
    )
    .unwrap();

    let text = text_for(&replace_result, Role::Assistant);
    assert!(text.contains("has been edited, and the section now reads"));

    // View the file to verify the change
    let view_result = call_text_editor(
        &mut router,
        &mut disk,
        object(&[("command", "view"), ("path", file_path_str)]),
    )
    .unwrap();

    let text = text_for(&view_result, Role::User);
    assert!(text.contains("Hello, Rust!"));
}

#[test]
fn test_text_editor_undo_edit() {
    let mut router = plain_router();
    let mut disk = Disk::new();
    let file_path_str = "/tmp/test.txt";

    // Create a new file
    call_text_editor(
        &mut router,
        &mut disk,
        object(&[("command", "write"), ("path", file_path_str), ("file_text", "First line")]),
    )
    .unwrap();

    // Replace string
    call_text_editor(
        &mut router,
        &mut disk,
        object(&[
            ("command", "str_replace"),
            ("path", file_path_str),
            ("old_str", "First line"),
            ("new_str", "Second line"),
        ]),
    )
    .unwrap();

    // Undo the edit
    let undo_result = call_text_editor(
        &mut router,
        &mut disk,
        object(&[("command", "undo_edit"), ("path", file_path_str)]),
    )
    .unwrap();

    let text = match &undo_result.first().unwrap().body {
        Body::Text(t) => t.clone(),
        _ => panic!("no text"),
    };
    assert!(text.contains("Undid the last edit"));

    // View the file to verify the undo
    let view_result = call_text_editor(
        &mut router,
        &mut disk,
        object(&[("command", "view"), ("path", file_path_str)]),
    )
    .unwrap();

    let text = text_for(&view_result, Role::User);
    assert!(text.contains("First line"));
}

#[test]
fn instructions_name_the_system_and_the_directory() {
    let text = plain_router().instructions();
    assert!(text.starts_with("The developer extension gives you the capabilities to edit"));
    assert!(text.ends_with(
        "\n\noperating system: linux\ncurrent directory: /work\n\n"
    ));
    let both = DeveloperRouter::new(
        "linux",
        "/work",
        Some("G".to_string()),
        Some("L".to_string()),
    );
    assert_eq!(
        both.instructions(),
        format!(
            "{}\n\n### Global Hints\nThe developer extension includes some global hints that apply to all projects & directories.\nG\n\n### Project Hints\nThe developer extension includes some hints for working on the project in this directory.\nL",
            text
        )
    );
    let local = DeveloperRouter::new("linux", "/work", None, Some("L".to_string()));
    assert_eq!(
        local.instructions(),
        format!(
            "{}\n### Project Hints\nThe developer extension includes some hints for working on the project in this directory.\nL",
            text
        )
    );
}

#[test]
fn developer_router_offers_its_tools() {
    let router = plain_router();
    assert_eq!(router.name(), "developer");
    assert_eq!(router.capabilities().tools_list_changed, Some(false));
    let tools = router.list_tools();
    let names: Vec<&str> = tools.iter().map(|t| t.name.as_str()).collect();
    assert_eq!(names, vec!["shell", "text_editor", "list_windows", "screen_capture"]);
    for tool in &tools {
        assert!(router.call_tool(&tool.name).is_ok());
        let schema: serde_json::Value = serde_json::from_str(&tool.input_schema).unwrap();
        assert_eq!(schema["type"], "object");
    }
    assert!(tools[0].description.starts_with("Execute a command in the shell.\n\nThis will"));
    assert!(tools[0].description.ends_with("  - To locate consent inside files: `rg 'class Example'`\n"));
    assert_eq!(
        router.call_tool("paint"),
        Err(ToolError::NotFound("Tool paint not found".to_string()))
    );
    assert!(router.list_resources().is_empty());
    assert_eq!(router.read_resource("x"), "");
}

#[test]
fn text_editor_refuses_incomplete_calls() {
    let mut router = plain_router();
    let mut disk = Disk::new();
    let cases: [(&[(&str, &str)], &str); 7] = [
        (&[("path", "/f")], "Missing 'command' parameter"),
        (&[("command", "view")], "Missing 'path' parameter"),
        (&[("command", "write"), ("path", "/f")], "Missing 'file_text' parameter"),
        (
            &[("command", "str_replace"), ("path", "/f"), ("new_str", "x")],
            "Missing 'old_str' parameter",
        ),
        (
            &[("command", "str_replace"), ("path", "/f"), ("old_str", "x")],
            "Missing 'new_str' parameter",
        ),
        (&[("command", "erase"), ("path", "/f")], "Unknown command 'erase'"),
        (
            &[("command", "view"), ("path", "f.txt")],
            "The path f.txt is not an absolute path, did you possibly mean /work/f.txt?",
        ),
    ];
    for (fields, message) in cases {
        assert_eq!(
            call_text_editor(&mut router, &mut disk, object(fields)),
            Err(ToolError::InvalidParameters(message.to_string()))
        );
    }
}

#[test]
fn editor_calls_need_a_resolved_path() {
    let params = object(&[("command", "view"), ("path", "p")]);
    assert_eq!(text_editor_path(&params), Ok("p"));
    let call = editor_call(&params, Ok(file_path("/p"))).unwrap();
    assert_eq!(call.path.text(), "/p");
    assert_eq!(call.command, EditorCommand::View);
    let refused = editor_call(&params, Err(ToolError::NotFound("x".to_string())));
    assert_eq!(refused.unwrap_err(), ToolError::NotFound("x".to_string()));
}

#[test]
fn tilde_stands_for_the_home_directory() {
    assert_eq!(expand_path("~/f.txt", Some("/home/user")), "/home/user/f.txt");
    assert_eq!(expand_path("~", Some("/home/user")), "/home/user");
    assert_eq!(expand_path("~other/f", Some("/home/user")), "~other/f");
    assert_eq!(expand_path("/a/~", Some("/home/user")), "/a/~");
    assert_eq!(expand_path("~/f.txt", None), "~/f.txt");
}

#[test]
fn paths_resolve_where_they_are_absolute() {
    let path = resolve_path("~/x.rs", Some("/home/user"), "/work").unwrap();
    assert_eq!(path.text(), "/home/user/x.rs");
    assert!(path.absolute());
    assert_eq!(
        resolve_path("src/x.rs", Some("/home/user"), "/work").unwrap_err().message(),
        "The path src/x.rs is not an absolute path, did you possibly mean /work/src/x.rs?"
    );
    for relative in ["../x", "a/b/c", "x", "./x", "~user/x", "."] {
        assert!(resolve_path(relative, Some("/home/user"), "/work").is_err());
    }
    let refused = accept_path("x", file_path("x"), "anywhere").unwrap_err();
    assert_eq!(
        refused.message(),
        "The path x is not an absolute path, did you possibly mean anywhere?"
    );
    assert!(accept_path("x", file_path("/x"), "").is_ok());
}

#[test]
fn paths_are_read_by_their_names() {
    for (text, names, extension) in [
        ("/", vec!["/"], ""),
        ("/a/b.txt", vec!["/", "a", "b.txt"], "txt"),
        ("/a//b/./c.tar.gz/", vec!["/", "a", "b", "c.tar.gz"], "gz"),
        ("/.", vec!["/"], ""),
        ("/.hidden", vec!["/", ".hidden"], ""),
        ("/.hidden.rs", vec!["/", ".hidden.rs"], "rs"),
        ("/a/..", vec!["/", "a", ".."], ""),
        ("/..a", vec!["/", "..a"], "a"),
        ("/dot.", vec!["/", "dot."], ""),
        ("/no", vec!["/", "no"], ""),
    ] {
        let path = file_path(text);
        assert_eq!(path.text(), text);
        assert!(path.absolute());
        assert_eq!(path.components(), &names);
        assert_eq!(path.extension_or_empty(), extension, "{}", text);
    }
    assert!(!file_path("name").absolute());
    assert!(!file_path("").absolute());
}

#[test]
fn view_shows_the_content_twice() {
    let contents =
        text_editor_view(&file_path("/tmp/a b.rs"), &small(), Ok("fn f() {}".to_string()), "rust")
            .unwrap();
    assert_eq!(contents.len(), 2);
    assert_eq!(
        contents[0],
        Content {
            body: Body::EmbeddedText {
                uri: "file:///tmp/a%20b.rs".to_string(),
                text: "fn f() {}".to_string(),
            },
            audience: Some(vec![Role::Assistant]),
            priority_tenths: None,
        }
    );
    assert_eq!(
        contents[1],
        Content {
            body: Body::Text("### /tmp/a b.rs\n```rust\nfn f() {}\n```\n".to_string()),
            audience: Some(vec![Role::User]),
            priority_tenths: Some(0),
        }
    );
}

#[test]
fn file_urls_are_percent_encoded() {
    for (path, uri) in [
        ("/plain/path-._~", "file:///plain/path-._~"),
        ("/a#b?c%d{e}", "file:///a%23b%3Fc%25d%7Be%7D"),
        ("/quote\"<>`\\", "file:///quote%22%3C%3E%60%5C"),
        ("/ö", "file:///%C3%B6"),
        ("/a/../b", "file:///a/../b"),
        ("/a//b/./c/", "file:///a/b/c"),
        ("/", "file:///"),
        ("/!$&'()*+,;=:@[]^|", "file:///!$&'()*+,;=:@[]^|"),
        ("/\u{1}\u{7f}", "file:///%01%7F"),
    ] {
        let contents =
            text_editor_view(&file_path(path), &small(), Ok(String::new()), "").unwrap();
        match &contents[0].body {
            Body::EmbeddedText { uri: u, .. } => assert_eq!(u, uri),
            _ => panic!("no file"),
        }
    }
    assert_eq!(
        text_editor_view(&file_path("relative"), &small(), Ok(String::new()), ""),
        Err(ToolError::ExecutionError("Invalid file path".to_string()))
    );
}

#[test]
fn view_tells_why_it_fails() {
    let path = file_path("/f");
    let uri = || Ok::<String, ()>("file:///f".to_string());
    assert_eq!(
        check_file_size(&path, &FileStat::NotAFile).unwrap_err().message(),
        "The path '/f' does not exist or is not a file."
    );
    assert_eq!(
        check_file_size(&path, &FileStat::Unknown("denied".to_string())).unwrap_err().message(),
        "Failed to get file metadata: denied"
    );
    assert_eq!(
        check_file_size(
            &path,
            &FileStat::Sized { bytes: 409_601, kilobytes: "400.00".to_string() }
        )
        .unwrap_err()
        .message(),
        "File '/f' is too large (400.00KB). Maximum size is 400KB to prevent memory issues."
    );
    assert_eq!(
        text_editor_view(&path, &FileStat::NotAFile, Ok(String::new()), "").unwrap_err().message(),
        "The path '/f' does not exist or is not a file."
    );
    assert!(check_file_size(
        &path,
        &FileStat::Sized { bytes: 409_600, kilobytes: "400.00".to_string() }
    )
    .is_ok());
    assert_eq!(
        view_contents(&path, uri(), Err("denied".to_string()), "")
            .unwrap_err()
            .message(),
        "Failed to read file: denied"
    );
    assert_eq!(
        view_contents(&path, Err(()), Ok(String::new()), "").unwrap_err().message(),
        "Invalid file path"
    );
    assert_eq!(
        view_contents(&path, uri(), Ok("ö".repeat(400_001)), "")
            .unwrap_err()
            .message(),
        "File '/f' has too many characters (400001). Maximum character count is 400000."
    );
    assert!(view_contents(&path, uri(), Ok("ö".repeat(400_000)), "").is_ok());
}

#[test]
fn write_confirms_and_shows() {
    let contents = text_editor_write(&file_path("/a/b.py"), "x = 1", Ok(())).unwrap();
    assert_eq!(text_for(&contents, Role::Assistant), "Successfully wrote to /a/b.py");
    assert_eq!(text_for(&contents, Role::User), "### /a/b.py\n```py\nx = 1\n```\n");
    assert_eq!(contents[1].priority_tenths, Some(2));
    let bare = text_editor_write(&file_path("/a/b"), "x", Ok(())).unwrap();
    assert_eq!(text_for(&bare, Role::User), "### /a/b\n```\nx\n```\n");
    assert_eq!(
        text_editor_write(&file_path("/a"), "x", Err("full".to_string())),
        Err(ToolError::ExecutionError("Failed to write file: full".to_string()))
    );
    assert_eq!(write_failure("full").message(), "Failed to write file: full");
}

#[test]
fn replace_shows_the_lines_around() {
    let content: String = (1..=20).map(|n| format!("line {}\n", n)).collect();
    let edit = replace_in_file(
        &file_path("/f.txt"),
        &FileRead::Text(content.clone()),
        "line 10\n",
        "ten\nand a half\n",
    )
    .unwrap();
    assert_eq!(edit.new_content, content.replace("line 10\n", "ten\nand a half\n"));
    let shown = "```txt\nline 6\nline 7\nline 8\nline 9\nten\nand a half\nline 11\nline 12\nline 13\nline 14\nline 15\n```\n";
    assert_eq!(text_for(&edit.contents, Role::User), shown);
    assert_eq!(
        text_for(&edit.contents, Role::Assistant),
        format!(
            "The file /f.txt has been edited, and the section now reads:\n{}\nReview the changes above for errors. Undo and edit the file again if necessary!\n",
            shown
        )
    );
    assert_eq!(edit.contents[1].priority_tenths, Some(2));
    // At the edges of the file there are fewer lines around.
    let first = replace_in_file(&file_path("/f"), &FileRead::Text(content), "line 1\n", "").unwrap();
    assert_eq!(
        text_for(&first.contents, Role::User),
        "```\nline 2\nline 3\nline 4\nline 5\nline 6\n```\n"
    );
}

#[test]
fn replace_needs_one_occurrence() {
    let path = file_path("/f");
    let text = |s: &str| FileRead::Text(s.to_string());
    assert_eq!(
        replace_in_file(&path, &text("a b a"), "a", "c").unwrap_err().message(),
        "'old_str' must appear exactly once in the file, but it appears multiple times"
    );
    assert_eq!(
        replace_in_file(&path, &text("a b a"), "x", "c").unwrap_err().message(),
        "'old_str' must appear exactly once in the file, but it does not appear in the file. Make sure the string exactly matches existing file content, including whitespace!"
    );
    assert_eq!(
        replace_in_file(&path, &FileRead::Missing, "x", "c").unwrap_err(),
        ToolError::InvalidParameters(
            "File '/f' does not exist, you can write a new file with the `write` command"
                .to_string()
        )
    );
    assert_eq!(
        replace_in_file(&path, &FileRead::Unreadable("denied".to_string()), "x", "c").unwrap_err(),
        ToolError::ExecutionError("Failed to read file: denied".to_string())
    );
    // Occurrences that overlap are one section of the file.
    assert_eq!(replace_in_file(&path, &text("aaa"), "aa", "b").unwrap().new_content, "ba");
    // The empty text stands everywhere, and just once in the empty file.
    assert!(replace_in_file(&path, &text("a"), "", "b").is_err());
    assert_eq!(replace_in_file(&path, &text(""), "", "b").unwrap().new_content, "b");
    // Replacing back gives the content back.
    let there = replace_in_file(&path, &text("one two three"), "two", "2").unwrap().new_content;
    assert_eq!(replace_in_file(&path, &text(&there), "2", "two").unwrap().new_content, "one two three");
}

#[test]
fn undo_goes_back_edit_by_edit() {
    let mut router = plain_router();
    let mut disk = Disk::new();
    for path in ["/a", "/b"] {
        disk.files.insert(path.to_string(), "one".to_string());
    }
    let mut edit = |router: &mut DeveloperRouter, disk: &mut Disk, path, old, new| {
        call_text_editor(
            router,
            disk,
            object(&[
                ("command", "str_replace"),
                ("path", path),
                ("old_str", old),
                ("new_str", new),
            ]),
        )
        .unwrap();
    };
    edit(&mut router, &mut disk, "/a", "one", "two");
    edit(&mut router, &mut disk, "/b", "one", "deux");
    edit(&mut router, &mut disk, "/a", "two", "three");
    let undo = object(&[("command", "undo_edit"), ("path", "/a")]);
    call_text_editor(&mut router, &mut disk, undo).unwrap();
    assert_eq!(disk.files["/a"], "two");
    let undo = object(&[("command", "undo_edit"), ("path", "/a")]);
    call_text_editor(&mut router, &mut disk, undo).unwrap();
    assert_eq!(disk.files["/a"], "one");
    assert_eq!(disk.files["/b"], "deux");
    let undo = object(&[("command", "undo_edit"), ("path", "/a")]);
    assert_eq!(
        call_text_editor(&mut router, &mut disk, undo),
        Err(ToolError::InvalidParameters("No edit history available to undo".to_string()))
    );
    assert_eq!(
        undo_contents(Err("full".to_string())),
        Err(ToolError::ExecutionError("Failed to write file: full".to_string()))
    );
}

#[test]
fn missing_files_are_saved_as_empty() {
    let mut router = plain_router();
    let path = file_path("/new");
    router.save_file_history(&path, &FileRead::Missing).unwrap();
    assert_eq!(router.text_editor_undo(&path), Ok(String::new()));
    assert_eq!(
        router.save_file_history(&path, &FileRead::Unreadable("denied".to_string())),
        Err(ToolError::ExecutionError("Failed to read file: denied".to_string()))
    );
    assert!(router.text_editor_undo(&path).is_err());
}

#[test]
fn history_keeps_files_apart() {
    let mut history = FileHistory::new();
    assert_eq!(history.take_last(&file_path("/a")), None);
    history.save(&file_path("/a"), "1".to_string());
    history.save(&file_path("/b"), "2".to_string());
    history.save(&file_path("/a/"), "3".to_string());
    assert_eq!(history.take_last(&file_path("/a")), Some("3".to_string()));
    assert_eq!(history.take_last(&file_path("/a")), Some("1".to_string()));
    assert_eq!(history.take_last(&file_path("/b")), Some("2".to_string()));
    assert_eq!(history.take_last(&file_path("/b")), None);
}

#[test]
fn shell_shows_its_output() {
    let params = object(&[("command", "echo hi")]);
    assert_eq!(shell_command(&params), Ok("echo hi"));
    assert_eq!(command_line("echo a >&2; echo b"), "exec 2>&1\necho a >&2; echo b");
    let contents = bash(&params, Ok((b"hi\n".to_vec(), true))).unwrap();
    assert_eq!(text_for(&contents, Role::Assistant), "hi\n\nThe command succeeded.\n");
    assert_eq!(text_for(&contents, Role::User), "hi\n\nThe command succeeded.\n");
    assert_eq!(contents[1].priority_tenths, Some(0));
    let lossy = bash(&params, Ok((vec![b'a', 0xff, 0xc3, 0xb6], false))).unwrap();
    assert_eq!(text_for(&lossy, Role::User), "a\u{fffd}ö\nThe command failed.\n");
    assert_eq!(
        bash(&params, Err("no bash".to_string())),
        Err(ToolError::ExecutionError("no bash".to_string()))
    );
    assert_eq!(
        shell_command(&object(&[])),
        Err(ToolError::InvalidParameters("The command string is required".to_string()))
    );
}

#[test]
fn shell_tells_success_from_failure() {
    let params = object(&[("command", "true")]);
    let passed = bash(&params, Ok((vec![], true))).unwrap();
    let failed = bash(&params, Ok((vec![], false))).unwrap();
    assert_ne!(passed, failed);
    for role in [Role::Assistant, Role::User] {
        assert_ne!(text_for(&passed, role), text_for(&failed, role));
    }
}

#[test]
fn shell_refuses_long_output() {
    assert_eq!(
        output_contents("yes", "y".repeat(400_001), true).unwrap_err().message(),
        "Shell output from command 'yes' has too many characters (400001). Maximum character count is 400000."
    );
    assert!(output_contents("yes", "y".repeat(400_000), false).is_ok());
}

#[test]
fn windows_are_listed_by_title() {
    let contents = list_windows(Some(vec!["One".to_string(), "Two".to_string()])).unwrap();
    assert_eq!(text_for(&contents, Role::Assistant), "Available windows:\nOne\nTwo");
    assert_eq!(text_for(&contents, Role::User), "Available windows:\nOne\nTwo");
    assert_eq!(
        list_windows(None),
        Err(ToolError::ExecutionError("Failed to list windows".to_string()))
    );
}

#[test]
fn screenshots_show_a_window_or_a_display() {
    assert_eq!(
        capture_target(&object(&[("window_title", "One")])),
        CaptureTarget::Window("One")
    );
    assert_eq!(capture_target(&object(&[])), CaptureTarget::Display(0));
    let second = Json::Object(vec![("display".to_string(), Json::Unsigned(1))]);
    assert_eq!(capture_target(&second), CaptureTarget::Display(1));
    assert_eq!(capture_target(&object(&[("display", "1")])), CaptureTarget::Display(0));

    let titles = Some(vec!["A".to_string(), "B".to_string(), "B".to_string()]);
    assert_eq!(find_window(&titles, "B"), Ok(1));
    assert_eq!(
        find_window(&titles, "C").unwrap_err().message(),
        "No window found with title 'C'"
    );
    assert_eq!(find_window(&None, "C").unwrap_err().message(), "Failed to list windows");
    assert_eq!(find_monitor(Some(2), 1), Ok(()));
    assert_eq!(
        find_monitor(Some(2), 2).unwrap_err().message(),
        "2 was not an available monitor, 2 found."
    );
    assert_eq!(find_monitor(None, 0).unwrap_err().message(), "Failed to access monitors");
    assert_eq!(
        capture_failure(CaptureTarget::Window("A"), "gone").message(),
        "Failed to capture window 'A': gone"
    );
    assert_eq!(
        capture_failure(CaptureTarget::Display(3), "gone").message(),
        "Failed to capture display 3: gone"
    );
    assert_eq!(narrower_width(768), None);
    assert_eq!(narrower_width(769), Some(768));
}

#[test]
fn screenshots_are_handed_out_in_base64() {
    let contents = screen_capture(Ok(b"\x89PNG".to_vec())).unwrap();
    assert_eq!(text_for(&contents, Role::Assistant), "Screenshot captured");
    assert_eq!(
        contents[1],
        Content {
            body: Body::Image { data: "iVBORw==".to_string(), mime_type: "image/png".to_string() },
            audience: None,
            priority_tenths: Some(0),
        }
    );
    assert_eq!(screen_capture(Ok(vec![0xfb, 0xff])).unwrap(), image_contents("+/8=".to_string()));
    assert_eq!(screen_capture(Ok(vec![])).unwrap(), image_contents(String::new()));
    assert_eq!(screen_capture(Ok(vec![0x3f; 3])).unwrap(), image_contents("Pz8/".to_string()));
    assert_eq!(
        screen_capture(Ok((0..=255).step_by(5).collect())).unwrap(),
        image_contents(
            "AAUKDxQZHiMoLTI3PEFGS1BVWl9kaW5zeH2Ch4yRlpugpaqvtLm+w8jN0tfc4ebr8PX6/w==".to_string()
        )
    );
    assert_eq!(
        screen_capture(Err("full".to_string())),
        Err(ToolError::ExecutionError("Failed to write image buffer full".to_string()))
    );
}
