//! Paths of files that tools are asked to work on.

use vstd::prelude::*;

use crate::encoding::segment_text;
use crate::protocol::{ToolError, ToolErrorView};
use crate::text::{opt_string, opt_text, split, texts};

verus! {

/// A path that starts with one slash and holds no backslash. Platforms agree on its
/// components.
pub open spec fn slash_path(s: Seq<char>) -> bool {
    &&& s.len() > 0
    &&& s[0] == '/'
    &&& s.len() > 1 ==> s[1] != '/'
    &&& !s.contains('\\')
}

/// The parts that name something: those that are neither empty nor `.`.
pub open spec fn named_parts(parts: Seq<Seq<char>>) -> Seq<Seq<char>>
    decreases parts.len(),
{
    if parts.len() == 0 {
        Seq::empty()
    } else {
        let before = named_parts(parts.drop_last());
        if parts.last().len() == 0 || parts.last() == seq!['.'] {
            before
        } else {
            before.push(parts.last())
        }
    }
}

/// The names between the slashes of a path.
pub open spec fn slash_names(s: Seq<char>) -> Seq<Seq<char>> {
    named_parts(split(s, seq!['/']))
}

/// The position of the last dot, or a negative number.
pub open spec fn last_dot(name: Seq<char>) -> int
    decreases name.len(),
{
    if name.len() == 0 {
        -1
    } else if name.last() == '.' {
        name.len() - 1
    } else {
        last_dot(name.drop_last())
    }
}

/// The extension of the last name: what stands behind its last dot, unless the dot
/// comes first. There is none where the path ends with `..`.
pub open spec fn extension_in(names: Seq<Seq<char>>) -> Option<Seq<char>> {
    if names.len() == 0 || names.last() == seq!['.', '.'] || last_dot(names.last()) <= 0 {
        None
    } else {
        Some(names.last().skip(last_dot(names.last()) + 1))
    }
}

/// `std::path::Path::is_absolute` tells whether a path is independent of the current
/// directory. Every absolute path starts with a root, maybe behind a prefix with a
/// colon or backslashes. So it holds a slash or a backslash, and a path that starts
/// otherwise and holds neither colon nor backslash is none. Which of the others are
/// absolute is up to the platform and left unsaid.
#[verifier::external_body]
fn path_is_absolute(s: &str) -> (r: bool)
    ensures
        r ==> s@.contains('/') || s@.contains('\\'),
        plain_relative(s@) ==> !r,
{
    std::path::Path::new(s).is_absolute()
}

/// `std::path::Path::components` gives the components of a path, without empty ones
/// and without `.` behind the first; here the root is written as a slash, and a
/// prefix by its kind, by which prefixes are told apart. How paths with prefixes or
/// backslashes fall into components is up to the platform and left unsaid.
#[verifier::external_body]
fn path_components(s: &str) -> (r: Vec<String>)
    ensures
        slash_path(s@) ==> texts(r@) == seq![seq!['/']] + slash_names(s@),
{
    let components = std::path::Path::new(s).components();
    components.map(|c| match c {
        std::path::Component::Prefix(p) => format!("{:?}", p.kind()),
        std::path::Component::RootDir => "/".to_string(),
        std::path::Component::CurDir => ".".to_string(),
        std::path::Component::ParentDir => "..".to_string(),
        std::path::Component::Normal(n) => n.to_string_lossy().into_owned(),
    }).collect()
}

/// `std::path::Path::extension` gives what stands behind the last dot of the last
/// component, unless the dot comes first or the path ends with `..`. What the last
/// component is of paths with prefixes or backslashes is up to the platform and left
/// unsaid.
#[verifier::external_body]
fn path_extension(s: &str) -> (r: Option<String>)
    ensures
        slash_path(s@) ==> opt_string(r) == extension_in(slash_names(s@)),
{
    std::path::Path::new(s).extension().map(|e| e.to_string_lossy().into_owned())
}

/// A directory that a relative path can be put behind on every platform.
pub open spec fn plain_base(s: Seq<char>) -> bool {
    s.len() > 0 && s.last() != '/' && s.last() != ':' && !s.contains('\\')
}

/// A path that is relative on every platform.
pub open spec fn plain_relative(s: Seq<char>) -> bool {
    s.len() > 0 && s[0] != '/' && !s.contains(':') && !s.contains('\\')
}

/// `r` may be the path below the directory.
pub open spec fn is_below(base: Seq<char>, path: Seq<char>, r: Seq<char>) -> bool {
    plain_base(base) && plain_relative(path) ==> r == base + seq!['/'] + path || r == base + seq![
        '\\',
    ] + path
}

/// `std::path::Path::join` puts a path behind a directory, with the separator of the
/// platform between the two. What becomes of paths that are not relative, and of
/// directories with prefixes or backslashes, is up to the platform and left unsaid.
#[verifier::external_body]
fn join_path(base: &str, path: &str) -> (r: String)
    ensures
        is_below(base@, path@, r@),
{
    std::path::Path::new(base).join(path).to_string_lossy().into_owned()
}

/// A path as the platform reads it: its text, the components by which two paths
/// are the same path, whether it is absolute, and its extension.
#[derive(Debug, PartialEq, Eq)]
pub struct FilePath {
    text: String,
    components: Vec<String>,
    absolute: bool,
    extension: Option<String>,
}

/// What two paths have in common when they are the same path.
pub type PathKey = Seq<Seq<char>>;

impl FilePath {
    /// The text of the path.
    pub closed spec fn shown(self) -> Seq<char> {
        self.text@
    }

    /// The components by which this path is told from others.
    pub closed spec fn key(self) -> PathKey {
        texts(self.components@)
    }

    /// The path does not depend on the current directory.
    pub closed spec fn is_absolute(self) -> bool {
        self.absolute
    }

    /// What stands behind the last dot of the last component.
    pub closed spec fn suffix(self) -> Option<Seq<char>> {
        opt_string(self.extension)
    }

    /// The language that a code block of this file is marked with: its extension.
    pub open spec fn language(self) -> Seq<char> {
        match self.suffix() {
            Some(ext) => ext,
            None => Seq::empty(),
        }
    }

    /// What is known of the path is read off its text.
    pub open spec fn well_formed(self) -> bool {
        &&& self.is_absolute() ==> self.shown().contains('/') || self.shown().contains('\\')
        &&& plain_relative(self.shown()) ==> !self.is_absolute()
        &&& slash_path(self.shown()) ==> {
            &&& self.key() == seq![seq!['/']] + slash_names(self.shown())
            &&& self.suffix() == extension_in(slash_names(self.shown()))
        }
    }

    #[verifier::type_invariant]
    spec fn always(self) -> bool {
        self.well_formed()
    }

    /// The path with the given text.
    pub fn new(text: &str) -> (p: FilePath)
        ensures
            p.shown() == text@,
            p.well_formed(),
    {
        FilePath {
            text: text.to_owned(),
            components: path_components(text),
            absolute: path_is_absolute(text),
            extension: path_extension(text),
        }
    }

    /// The text of the path.
    pub fn text(&self) -> (s: &str)
        ensures
            s@ == self.shown(),
    {
        self.text.as_str()
    }

    /// Whether the path does not depend on the current directory.
    pub fn absolute(&self) -> (r: bool)
        ensures
            r == self.is_absolute(),
            self.well_formed(),
    {
        proof {
            use_type_invariant(self);
        }
        self.absolute
    }

    /// The components by which this path is told from others.
    pub fn components(&self) -> (v: &Vec<String>)
        ensures
            texts(v@) == self.key(),
    {
        &self.components
    }

    /// The language that a code block of this file is marked with: its extension.
    pub fn extension_or_empty(&self) -> (ext: &str)
        ensures
            ext@ == self.language(),
    {
        match &self.extension {
            Some(ext) => ext.as_str(),
            None => {
                proof {
                    reveal_strlit("");
                    assert(""@ =~= Seq::empty());
                }
                ""
            },
        }
    }
}

/// Two paths that start with one slash and name the same are the same path, however
/// often the slashes are repeated.
pub proof fn law_same_names_same_path(a: FilePath, b: FilePath)
    requires
        a.well_formed(),
        b.well_formed(),
        slash_path(a.shown()),
        slash_path(b.shown()),
    ensures
        a.key() == b.key() <==> slash_names(a.shown()) == slash_names(b.shown()),
        a.key() == b.key() ==> a.suffix() == b.suffix(),
{
    if a.key() == b.key() {
        assert(a.key().skip(1) =~= slash_names(a.shown()));
        assert(b.key().skip(1) =~= slash_names(b.shown()));
    }
}

/// The complaint about a path that is not absolute.
pub open spec fn not_absolute(path_str: Seq<char>, suggestion: Seq<char>) -> Seq<char> {
    "The path "@ + path_str + " is not an absolute path, did you possibly mean "@ + suggestion
        + "?"@
}

/// An absolute path, or the complaint about another, which names it as it was given
/// and suggests the path below the working directory.
pub open spec fn accepted(
    path_str: Seq<char>,
    path: FilePath,
    suggestion: Seq<char>,
) -> Result<FilePath, ToolErrorView> {
    if path.is_absolute() {
        Ok(path)
    } else {
        Err(ToolErrorView::InvalidParameters(not_absolute(path_str, suggestion)))
    }
}

/// The view of a path or of the complaint about it.
pub open spec fn resolved_view(r: Result<FilePath, ToolError>) -> Result<
    FilePath,
    ToolErrorView,
> {
    match r {
        Ok(p) => Ok(p),
        Err(e) => Err(e@),
    }
}

/// Accepts an absolute path. Of any other the error names the path as it was
/// given and suggests the path below the working directory.
pub fn accept_path(path_str: &str, path: FilePath, suggestion: &str) -> (r: Result<
    FilePath,
    ToolError,
>)
    ensures
        resolved_view(r) == accepted(path_str@, path, suggestion@),
{
    if path.absolute() {
        Ok(path)
    } else {
        let mut m = "The path ".to_string();
        m.append(path_str);
        m.append(" is not an absolute path, did you possibly mean ");
        m.append(suggestion);
        m.append("?");
        Err(ToolError::InvalidParameters(m))
    }
}

/// The text behind a leading `~`, where the tilde stands alone or before a slash.
pub open spec fn after_tilde(s: Seq<char>) -> Option<Seq<char>> {
    if s.len() > 0 && s[0] == '~' && (s.len() == 1 || s[1] == '/') {
        Some(s.skip(1))
    } else {
        None
    }
}

/// The path with a leading `~` replaced by the home directory, where there is one.
pub open spec fn expanded(s: Seq<char>, home: Option<Seq<char>>) -> Seq<char> {
    match (after_tilde(s), home) {
        (Some(rest), Some(h)) => h + rest,
        _ => s,
    }
}

/// A path that starts with `~\`, which platforms read differently.
pub open spec fn tilde_backslash(s: Seq<char>) -> bool {
    s.len() >= 2 && s[0] == '~' && s[1] == '\\'
}

/// `r` is what the path `s` expands to. Of a path that starts with `~\` it is
/// either the path itself or the home directory with the rest of the path.
pub open spec fn expands_to(s: Seq<char>, home: Option<Seq<char>>, r: Seq<char>) -> bool {
    if tilde_backslash(s) {
        r == s || (home is Some && r == home->0 + s.skip(1))
    } else {
        r == expanded(s, home)
    }
}

/// `shellexpand::tilde_with_context` replaces a leading `~` that stands alone or
/// before a slash by the home directory that its context gives, and leaves every
/// other text, and every text where no home directory is known, as it is. On
/// Windows it takes a backslash for a slash; of texts that start so it is said
/// only that one of the two happens.
#[verifier::external_body]
fn tilde(path_str: &str, home: Option<&str>) -> (r: String)
    ensures
        expands_to(path_str@, opt_text(home), r@),
{
    shellexpand::tilde_with_context(path_str, || home).into_owned()
}

/// The path that a tool call means, with a leading `~` read as the home directory.
pub fn expand_path(path_str: &str, home: Option<&str>) -> (r: String)
    ensures
        expands_to(path_str@, opt_text(home), r@),
{
    tilde(path_str, home)
}

/// The path that a text means, where a leading `~` is read as the home directory.
pub open spec fn path_of(path_str: Seq<char>, home: Option<Seq<char>>, path: FilePath) -> bool {
    expands_to(path_str, home, path.shown()) && path.well_formed()
}

/// `r` is what a text resolves to. Whether the path is absolute is up to the
/// platform, as is the path below the working directory where the two are not plain.
pub open spec fn resolves(
    path_str: Seq<char>,
    home: Option<Seq<char>>,
    cwd: Seq<char>,
    r: Result<FilePath, ToolErrorView>,
) -> bool {
    exists|path: FilePath, suggestion: Seq<char>|
        path_of(path_str, home, path) && is_below(cwd, path.shown(), suggestion) && r
            == #[trigger] accepted(path_str, path, suggestion)
}

/// The path that a text means, if it is absolute. A leading `~` is read as the home
/// directory, and of any other path the one below the working directory is suggested.
pub fn resolve_path(path_str: &str, home: Option<&str>, cwd: &str) -> (r: Result<
    FilePath,
    ToolError,
>)
    ensures
        resolves(path_str@, opt_text(home), cwd@, resolved_view(r)),
{
    let path = FilePath::new(expand_path(path_str, home).as_str());
    let suggestion = join_path(cwd, path.text());
    accept_path(path_str, path, suggestion.as_str())
}

/// A text without slashes and backslashes, and without a tilde in front, is refused
/// on every platform, with the path below the working directory as a suggestion.
pub proof fn law_bare_names_are_refused(
    path_str: Seq<char>,
    home: Option<Seq<char>>,
    cwd: Seq<char>,
    r: Result<FilePath, ToolErrorView>,
)
    requires
        resolves(path_str, home, cwd, r),
        !path_str.contains('/'),
        !path_str.contains('\\'),
        path_str.len() > 0 ==> path_str[0] != '~',
    ensures
        r is Err,
        plain_base(cwd) && plain_relative(path_str) ==> r == Err::<FilePath, ToolErrorView>(
            ToolErrorView::InvalidParameters(not_absolute(path_str, cwd + seq!['/'] + path_str)),
        ) || r == Err::<FilePath, ToolErrorView>(
            ToolErrorView::InvalidParameters(not_absolute(path_str, cwd + seq!['\\'] + path_str)),
        ),
{
}

/// A relative path is refused on every platform, unless its tilde stands for the home
/// directory, and the path below the working directory is suggested.
pub proof fn law_relative_paths_are_refused(
    path_str: Seq<char>,
    home: Option<Seq<char>>,
    cwd: Seq<char>,
    r: Result<FilePath, ToolErrorView>,
)
    requires
        resolves(path_str, home, cwd, r),
        plain_relative(path_str),
        after_tilde(path_str) is None || home is None,
    ensures
        r is Err,
        plain_base(cwd) ==> r == Err::<FilePath, ToolErrorView>(
            ToolErrorView::InvalidParameters(not_absolute(path_str, cwd + seq!['/'] + path_str)),
        ) || r == Err::<FilePath, ToolErrorView>(
            ToolErrorView::InvalidParameters(not_absolute(path_str, cwd + seq!['\\'] + path_str)),
        ),
{
    if tilde_backslash(path_str) {
        assert(path_str.contains(path_str[1]));
    }
}

/// The names, each behind a slash and as URLs write it; a slash alone where there is
/// no name.
pub open spec fn url_path(names: Seq<Seq<char>>) -> Seq<char> {
    if names.len() == 0 {
        seq!['/']
    } else {
        url_segments(names)
    }
}

/// The names, each behind a slash and as URLs write it.
pub open spec fn url_segments(names: Seq<Seq<char>>) -> Seq<char>
    decreases names.len(),
{
    if names.len() == 0 {
        Seq::empty()
    } else {
        url_segments(names.drop_last()) + seq!['/'] + segment_text(names.last())
    }
}

/// `uri` may be the `file` URL of the path. Of a path that starts with one slash and
/// holds no backslash it is the names of the path behind `file://`, unless there is
/// none.
pub open spec fn is_file_uri(path: Seq<char>, uri: Option<Seq<char>>) -> bool {
    uri matches Some(u) ==> {
        &&& "file://"@.is_prefix_of(u)
        &&& slash_path(path) ==> u == "file://"@ + url_path(slash_names(path))
    }
}

/// `url::Url::from_file_path` gives the `file` URL of an absolute path: `file://`
/// and the components of the path, each behind a slash and percent-encoded. It does
/// not fail on an absolute path without a prefix, and a path that starts with one
/// slash has none. That the path is absolute was asked of std, for the same text, when
/// the path was made. Which other paths it fails on, and how paths with prefixes or
/// backslashes fall into components, depends on the platform: of those it is said
/// only how the URL starts.
#[verifier::external_body]
pub(crate) fn file_uri(path: &FilePath) -> (r: Result<String, ()>)
    ensures
        is_file_uri(path.shown(), uri_view(r)),
        has_file_uri(*path) ==> r is Ok,
{
    url::Url::from_file_path(path.text.as_str()).map(|u| u.to_string())
}

/// The path has a `file` URL on every platform on which it is absolute.
pub open spec fn has_file_uri(path: FilePath) -> bool {
    slash_path(path.shown()) && path.is_absolute()
}

/// The text of a URL, where there is one.
pub open spec fn uri_view(r: Result<String, ()>) -> Option<Seq<char>> {
    match r {
        Ok(u) => Some(u@),
        Err(_) => None,
    }
}

} // verus!
