//! The screen tools: which window or display is looked at, and what is answered.

use vstd::prelude::*;

use crate::developer::editor::answer;
use crate::encoding::{base64_padded, encode_padded, padded_length};
use crate::json::{string_field, unsigned_field, Json};
use crate::protocol::{
    assistant_text, content_views, user_text, BodyView, Content, ContentView, Role, ToolError,
    ToolErrorView,
};
use crate::text::{appended, decimal, decimal_text, join, join_strings, same_text, texts};

verus! {

/// The complaint when the windows cannot be listed.
pub const NO_WINDOWS: &'static str = "Failed to list windows";

/// The complaint when the displays cannot be listed.
pub const NO_MONITORS: &'static str = "Failed to access monitors";

/// The widest screenshot that is handed out.
pub const MAX_WIDTH: u32 = 768;

/// What the titles of all windows answer.
pub open spec fn listed_windows(titles: Seq<Seq<char>>) -> Seq<ContentView> {
    let text = "Available windows:\n"@ + join(titles, "\n"@);
    seq![assistant_text(text), user_text(text, 0)]
}

/// What listing the windows answers, given the titles of all windows, where they
/// could be had.
pub fn list_windows(titles: Option<Vec<String>>) -> (r: Result<Vec<Content>, ToolError>)
    ensures
        answer(r) == match titles {
            Some(t) => Ok::<Seq<ContentView>, ToolErrorView>(listed_windows(texts(t@))),
            None => Err(ToolErrorView::ExecutionError(NO_WINDOWS@)),
        },
{
    match titles {
        None => Err(ToolError::ExecutionError(NO_WINDOWS.to_string())),
        Some(t) => {
            let text = appended(
                "Available windows:\n",
                join_strings(t.as_slice(), "\n").as_str(),
            );
            let mut v: Vec<Content> = Vec::new();
            v.push(Content::text(text.clone()).for_role(Role::Assistant));
            v.push(Content::text(text).for_role(Role::User).with_priority(0));
            proof {
                assert(content_views(v@) =~= listed_windows(texts(t@)));
            }
            Ok(v)
        },
    }
}

/// What a screenshot is to show.
#[derive(Clone, Copy, Debug, PartialEq, Eq)]
pub enum CaptureTarget<'a> {
    Window(&'a str),
    Display(usize),
}

/// What a call asks a screenshot of: the window that it names, or else the display,
/// which is the main one unless said otherwise.
pub fn capture_target<'a>(params: &'a Json) -> (t: CaptureTarget<'a>)
    ensures
        match t {
            CaptureTarget::Window(title) => string_field(*params, "window_title"@) == Some(title@),
            CaptureTarget::Display(n) => string_field(*params, "window_title"@) is None && n
                == match unsigned_field(*params, "display"@) {
                Some(d) => d as usize,
                None => 0,
            },
        },
{
    match params.get_str("window_title") {
        Some(title) => CaptureTarget::Window(title),
        None => match params.get_u64("display") {
            Some(d) => CaptureTarget::Display(
                #[verifier::truncate]
                (d as usize),
            ),
            None => CaptureTarget::Display(0),
        },
    }
}

/// The first window with the wanted title, going by the titles of all windows,
/// where they could be had.
pub fn find_window(titles: &Option<Vec<String>>, wanted: &str) -> (r: Result<usize, ToolError>)
    ensures
        match r {
            Ok(i) => *titles matches Some(t) && i < t@.len() && t@[i as int]@ == wanted@ && forall|
                j: int,
            |
                0 <= j < i ==> (#[trigger] t@[j])@ != wanted@,
            Err(e) => match *titles {
                None => e@ == ToolErrorView::ExecutionError(NO_WINDOWS@),
                Some(t) => e@ == ToolErrorView::ExecutionError(
                    "No window found with title '"@ + wanted@ + "'"@,
                ) && forall|j: int| 0 <= j < t@.len() ==> (#[trigger] t@[j])@ != wanted@,
            },
        },
{
    let t = match titles {
        None => {
            return Err(ToolError::ExecutionError(NO_WINDOWS.to_string()));
        },
        Some(t) => t,
    };
    let mut i: usize = 0;
    while i < t.len()
        invariant
            *titles == Some(*t),
            i <= t@.len(),
            forall|j: int| 0 <= j < i ==> (#[trigger] t@[j])@ != wanted@,
        decreases t@.len() - i,
    {
        if same_text(t[i].as_str(), wanted) {
            return Ok(i);
        }
        i += 1;
    }
    let mut m = "No window found with title '".to_string();
    m.append(wanted);
    m.append("'");
    Err(ToolError::ExecutionError(m))
}

/// Whether there is a display with the given number, going by the number of
/// displays, where it is known.
pub fn find_monitor(count: Option<usize>, display: usize) -> (r: Result<(), ToolError>)
    ensures
        match r {
            Ok(_) => count matches Some(n) && display < n,
            Err(e) => match count {
                None => e@ == ToolErrorView::ExecutionError(NO_MONITORS@),
                Some(n) => display >= n && e@ == ToolErrorView::ExecutionError(
                    decimal(display as int) + " was not an available monitor, "@ + decimal(n as int)
                        + " found."@,
                ),
            },
        },
{
    match count {
        None => Err(ToolError::ExecutionError(NO_MONITORS.to_string())),
        Some(n) => {
            if display < n {
                Ok(())
            } else {
                let mut m = decimal_text(display);
                m.append(" was not an available monitor, ");
                m.append(decimal_text(n).as_str());
                m.append(" found.");
                Err(ToolError::ExecutionError(m))
            }
        },
    }
}

/// The complaint about a window or a display that could not be captured.
pub fn capture_failure(target: CaptureTarget, e: &str) -> (r: ToolError)
    ensures
        r@ == ToolErrorView::ExecutionError(
            match target {
                CaptureTarget::Window(title) => "Failed to capture window '"@ + title@ + "': "@,
                CaptureTarget::Display(n) => "Failed to capture display "@ + decimal(n as int)
                    + ": "@,
            } + e@,
        ),
{
    let mut m = match target {
        CaptureTarget::Window(title) => {
            let mut m = "Failed to capture window '".to_string();
            m.append(title);
            m.append("': ");
            m
        },
        CaptureTarget::Display(n) => {
            let mut m = "Failed to capture display ".to_string();
            m.append(decimal_text(n).as_str());
            m.append(": ");
            m
        },
    };
    m.append(e);
    ToolError::ExecutionError(m)
}

/// The width that a screenshot is to be brought to, where it is too wide.
pub fn narrower_width(width: u32) -> (r: Option<u32>)
    ensures
        r == if width > MAX_WIDTH {
            Some(MAX_WIDTH)
        } else {
            None
        },
        r is Some <==> width > 768,
        r matches Some(w) ==> w == 768,
{
    if width > MAX_WIDTH {
        Some(MAX_WIDTH)
    } else {
        None
    }
}

/// What a screenshot answers: a note for the assistant and the image.
pub open spec fn screenshot(data: Seq<char>) -> Seq<ContentView> {
    seq![
        assistant_text("Screenshot captured"@),
        ContentView {
            body: BodyView::Image { data, mime_type: "image/png"@ },
            audience: None,
            priority_tenths: Some(0),
        },
    ]
}

/// What a screenshot answers, given the bytes of the image or the reason why they
/// could not be written.
pub fn screen_capture(png: Result<Vec<u8>, String>) -> (r: Result<Vec<Content>, ToolError>)
    requires
        png matches Ok(bytes) ==> padded_length(bytes@.len()) <= isize::MAX,
    ensures
        answer(r) == match png {
            Ok(bytes) => Ok::<Seq<ContentView>, ToolErrorView>(
                screenshot(base64_padded(bytes@)),
            ),
            Err(e) => Err(ToolErrorView::ExecutionError("Failed to write image buffer "@ + e@)),
        },
{
    match png {
        Err(e) => Err(
            ToolError::ExecutionError(appended("Failed to write image buffer ", e.as_str())),
        ),
        Ok(bytes) => {
            let data = encode_padded(bytes.as_slice());
            Ok(image_contents(data))
        },
    }
}

/// The answer with an image that is already in base64.
pub fn image_contents(data: String) -> (v: Vec<Content>)
    ensures
        content_views(v@) == screenshot(data@),
{
    let mut v: Vec<Content> = Vec::new();
    v.push(Content::text("Screenshot captured".to_string()).for_role(Role::Assistant));
    v.push(Content::image(data, "image/png").with_priority(0));
    proof {
        assert(content_views(v@) =~= screenshot(data@));
    }
    v
}

} // verus!
