//! What the developer extension tells of itself and of its tools.

use vstd::prelude::*;

verus! {

/// What the tool `shell` does.
pub const SHELL_DESCRIPTION: &'static str =
    r#"Execute a command in the shell.

This will return the output and error concatenated into a single string, as
you would see from running on the command line. There will also be an indication
of if the command succeeded or failed.

Avoid commands that produce a large amount of output, and consider piping those outputs to files.
If you need to run a long lived command, background it - e.g. `uvicorn main:app &` so that
this tool does not run indefinitely.

**Important**: Use ripgrep - `rg` - when you need to locate a file or a code reference, other solutions
may show ignored or hidden files. For example *do not* use `find` or `ls -r`
  - To locate a file by name: `rg --files | rg example.py`
  - To locate consent inside files: `rg 'class Example'`
"#;

/// The arguments of the tool `shell`.
pub const SHELL_SCHEMA: &'static str =
    r#"{"type":"object","required":["command"],"properties":{"command":{"type":"string"}}}"#;

/// What the tool `text_editor` does.
pub const TEXT_EDITOR_DESCRIPTION: &'static str =
    r#"Perform text editing operations on files.

The `command` parameter specifies the operation to perform. Allowed options are:
- `view`: View the content of a file.
- `write`: Create or overwrite a file with the given content
- `str_replace`: Replace a string in a file with a new string.
- `undo_edit`: Undo the last edit made to a file.

To use the write command, you must specify `file_text` which will become the new content of the file. Be careful with
existing files! This is a full overwrite, so you must include everything - not just sections you are modifying.

To use the str_replace command, you must specify both `old_str` and `new_str` - the `old_str` needs to exactly match one
unique section of the original file, including any whitespace. Make sure to include enough context that the match is not
ambiguous. The entire original string will be replaced with `new_str`.
"#;

/// The arguments of the tool `text_editor`.
pub const TEXT_EDITOR_SCHEMA: &'static str =
    r#"{"type":"object","required":["command","path"],"properties":{"path":{"description":"Absolute path to file or directory, e.g. `/repo/file.py` or `/repo`.","type":"string"},"command":{"type":"string","enum":["view","write","str_replace","undo_edit"],"description":"Allowed options are: `view`, `write`, `str_replace`, undo_edit`."},"old_str":{"type":"string"},"new_str":{"type":"string"},"file_text":{"type":"string"}}}"#;

/// What the tool `list_windows` does.
pub const LIST_WINDOWS_DESCRIPTION: &'static str =
    r#"List all available window titles that can be used with screen_capture.
Returns a list of window titles that can be used with the window_title parameter
of the screen_capture tool.
"#;

/// The arguments of the tool `list_windows`.
pub const LIST_WINDOWS_SCHEMA: &'static str =
    r#"{"type":"object","required":[],"properties":{}}"#;

/// What the tool `screen_capture` does.
pub const SCREEN_CAPTURE_DESCRIPTION: &'static str =
    r#"Capture a screenshot of a specified display or window.
You can capture either:
1. A full display (monitor) using the display parameter
2. A specific window by its title using the window_title parameter

Only one of display or window_title should be specified.
"#;

/// The arguments of the tool `screen_capture`.
pub const SCREEN_CAPTURE_SCHEMA: &'static str =
    r#"{"type":"object","required":[],"properties":{"display":{"type":"integer","default":0,"description":"The display number to capture (0 is main display)"},"window_title":{"type":"string","default":null,"description":"Optional: the exact title of the window to capture. use the list_windows tool to find the available windows."}}}"#;

/// How to use the developer tools, up to the operating system.
pub const INSTRUCTIONS_HEAD: &'static str =
    r#"The developer extension gives you the capabilities to edit code files and run shell commands,
and can be used to solve a wide range of problems.

You can use the shell tool to run any command that would work on the relevant operating system.
Use the shell tool as needed to locate files or interact with the project.

Your windows/screen tools can be used for visual debugging. You should not use these tools unless
prompted to, but you can mention they are available if they are relevant.

operating system: "#;

/// What stands before the hints for all projects.
pub const GLOBAL_HINTS_HEAD: &'static str =
    "\n### Global Hints\nThe developer extension includes some global hints that apply to all projects & directories.\n";

/// What stands before the hints for the project at hand.
pub const PROJECT_HINTS_HEAD: &'static str =
    "### Project Hints\nThe developer extension includes some hints for working on the project in this directory.\n";

} // verus!
