//! The shell tool: which command line is run, and what its output answers.

use vstd::prelude::*;

use crate::developer::editor::{answer, MAX_CHAR_COUNT};
use crate::encoding::{lossy_text, read_lossy};
use crate::json::{string_field, Json};
use crate::protocol::{
    assistant_text, content_views, user_text, Content, ContentView, Role, ToolError, ToolErrorView,
};
use crate::text::{appended, contains_text, decimal, decimal_text, occurs_at};

verus! {

/// The complaint about a call without a command.
pub const NO_COMMAND: &'static str = "The command string is required";

/// The command that a call of the shell tool names.
pub fn shell_command<'a>(params: &'a Json) -> (r: Result<&'a str, ToolError>)
    ensures
        match r {
            Ok(c) => string_field(*params, "command"@) == Some(c@),
            Err(e) => string_field(*params, "command"@) is None && e@
                == ToolErrorView::InvalidParameters(NO_COMMAND@),
        },
{
    match params.get_str("command") {
        Some(c) => Ok(c),
        None => Err(ToolError::InvalidParameters(NO_COMMAND.to_string())),
    }
}

/// What stands before the command in the script that is run: from there on, errors
/// join the output.
pub const JOIN_ERRORS: &'static str = "exec 2>&1\n";

/// The script that is run: the errors of all of the command join its output.
pub fn command_line(command: &str) -> (s: String)
    ensures
        s@ == JOIN_ERRORS@ + command@,
        s@ == "exec 2>&1\n"@ + command@,
{
    appended(JOIN_ERRORS, command)
}

/// What stands behind the output of a command that succeeded.
pub const SUCCEEDED: &'static str = "\nThe command succeeded.\n";

/// What stands behind the output of a command that failed.
pub const FAILED: &'static str = "\nThe command failed.\n";

/// The output of a command, with an indication of whether it succeeded.
pub open spec fn with_status(output: Seq<char>, succeeded: bool) -> Seq<char> {
    output + if succeeded {
        SUCCEEDED@
    } else {
        FAILED@
    }
}

/// What is shown holds the output and tells a command that succeeded from one that
/// failed, whatever their outputs.
pub proof fn law_status_is_shown(
    output: Seq<char>,
    succeeded: bool,
    other: Seq<char>,
    other_succeeded: bool,
)
    ensures
        contains_text(with_status(output, succeeded), output),
        with_status(output, succeeded) == with_status(other, other_succeeded) <==> output == other
            && succeeded == other_succeeded,
{
    reveal_strlit("\nThe command succeeded.\n");
    reveal_strlit("\nThe command failed.\n");
    let a = with_status(output, succeeded);
    let b = with_status(other, other_succeeded);
    assert(a.subrange(0, output.len() as int) =~= output);
    assert(occurs_at(a, output, 0));
    if a == b {
        assert(a[a.len() - 5] == if succeeded {
            'd'
        } else {
            'l'
        });
        assert(b[b.len() - 5] == if other_succeeded {
            'd'
        } else {
            'l'
        });
        assert(b.subrange(0, other.len() as int) =~= other);
    }
}

/// The complaint about an output with too many characters.
pub open spec fn too_much_output(command: Seq<char>, length: nat) -> ToolErrorView {
    ToolErrorView::ExecutionError(
        "Shell output from command '"@ + command + "' has too many characters ("@ + decimal(
            length as int,
        ) + "). Maximum character count is "@ + decimal(MAX_CHAR_COUNT as int) + "."@,
    )
}

/// What the output of a command answers, given whether it succeeded.
pub open spec fn shown_output(
    command: Seq<char>,
    output: Seq<char>,
    succeeded: bool,
) -> Result<Seq<ContentView>, ToolErrorView> {
    if output.len() > MAX_CHAR_COUNT {
        Err(too_much_output(command, output.len()))
    } else {
        let text = with_status(output, succeeded);
        Ok(seq![assistant_text(text), user_text(text, 0)])
    }
}

/// What the output of a command answers: the output and whether the command
/// succeeded, once for the assistant and once for the user, unless the output holds
/// too many characters.
pub fn output_contents(command: &str, output: String, succeeded: bool) -> (r: Result<
    Vec<Content>,
    ToolError,
>)
    ensures
        answer(r) == shown_output(command@, output@, succeeded),
{
    let length: usize = output.as_str().unicode_len();
    if length > MAX_CHAR_COUNT {
        let mut m = "Shell output from command '".to_string();
        m.append(command);
        m.append("' has too many characters (");
        m.append(decimal_text(length).as_str());
        m.append("). Maximum character count is ");
        m.append(decimal_text(MAX_CHAR_COUNT).as_str());
        m.append(".");
        return Err(ToolError::ExecutionError(m));
    }
    let text = if succeeded {
        appended(output.as_str(), SUCCEEDED)
    } else {
        appended(output.as_str(), FAILED)
    };
    let mut v: Vec<Content> = Vec::new();
    v.push(Content::text(text.clone()).for_role(Role::Assistant));
    v.push(Content::text(text).for_role(Role::User).with_priority(0));
    proof {
        assert(content_views(v@) =~= seq![assistant_text(text@), user_text(text@, 0)]);
    }
    Ok(v)
}

/// What a call of the shell tool answers, given what running its script gave: the
/// bytes of its output and whether it succeeded, or the reason why it could not be
/// run.
pub fn bash(params: &Json, outcome: Result<(Vec<u8>, bool), String>) -> (r: Result<
    Vec<Content>,
    ToolError,
>)
    ensures
        answer(r) == match string_field(*params, "command"@) {
            None => Err::<Seq<ContentView>, ToolErrorView>(
                ToolErrorView::InvalidParameters(NO_COMMAND@),
            ),
            Some(command) => match outcome {
                Err(e) => Err(ToolErrorView::ExecutionError(e@)),
                Ok((bytes, succeeded)) => shown_output(command, lossy_text(bytes@), succeeded),
            },
        },
{
    let command: &str = match shell_command(params) {
        Ok(c) => c,
        Err(e) => {
            return Err(e);
        },
    };
    match outcome {
        Err(e) => Err(ToolError::ExecutionError(e)),
        Ok((bytes, succeeded)) => output_contents(
            command,
            read_lossy(bytes.as_slice()),
            succeeded,
        ),
    }
}

} // verus!
