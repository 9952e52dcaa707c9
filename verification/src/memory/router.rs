//! The router of the memory tools: which tools there are, what a call asks for and
//! what is answered.

use vstd::prelude::*;

use crate::json::{string_field, Json};
use crate::memory::args::{parsed_args, MemoryArgs, MemoryArgsView};
use crate::memory::store::{
    distinct_keys, law_put, put, record, record_text, removed, retrieve, retrieved, without_memory,
    GroupView, Memories,
};
use crate::memory::wording::{
    BASE_INSTRUCTIONS, CATEGORY_SCHEMA, FOLLOW_UP, REMEMBER_SCHEMA, REMOVE_SCHEMA,
};
use crate::protocol::{
    content_views, duplicate_tools, plain_text, tool_views, Content, ServerCapabilities, Tool,
    ToolError, ToolErrorView, ToolView,
};
use crate::text::{
    appended, join, join_strings, opt_string, opt_text, same_text, split, split_on, str_texts,
    texts,
};

verus! {

/// Where the memories of a category stand: a directory and the name of a file in it.
#[derive(Debug, PartialEq, Eq)]
pub struct MemoryPath {
    pub dir: String,
    pub file_name: String,
}

/// The view of a [`MemoryPath`].
pub struct MemoryPathView {
    pub dir: Seq<char>,
    pub file_name: Seq<char>,
}

impl View for MemoryPath {
    type V = MemoryPathView;

    open spec fn view(&self) -> MemoryPathView {
        MemoryPathView { dir: self.dir@, file_name: self.file_name@ }
    }
}

/// A file in a directory of memories: its name, and what stands in the file of the
/// category that the name gives, if there is one.
#[derive(Debug)]
pub struct CategoryFile {
    pub file_name: String,
    pub content: Option<String>,
}

/// The category that a file name gives: the name without `.txt` wherever it stands.
pub open spec fn category_name(file_name: Seq<char>) -> Seq<char> {
    join(split(file_name, ".txt"@), Seq::empty())
}

/// The category that a file name gives: the name without `.txt` wherever it stands.
pub fn category_of(file_name: &str) -> (category: String)
    ensures
        category@ == category_name(file_name@),
{
    proof {
        reveal_strlit(".txt");
        reveal_strlit("");
        assert(""@ =~= Seq::empty());
    }
    let parts = split_on(file_name, ".txt");
    join_strings(parts.as_slice(), "")
}

/// The name of the file of a category.
pub fn memory_file_name(category: &str) -> (file_name: String)
    ensures
        file_name@ == category@ + ".txt"@,
{
    appended(category, ".txt")
}

/// The lines of all groups, one group behind the other.
pub open spec fn all_lines(groups: Seq<GroupView>) -> Seq<Seq<char>>
    decreases groups.len(),
{
    if groups.len() == 0 {
        Seq::empty()
    } else {
        all_lines(groups.drop_last()) + groups.last().lines
    }
}

/// The memories of all categories, each category with the lines of all its groups.
pub open spec fn collected(files: Seq<CategoryFile>) -> Seq<GroupView>
    decreases files.len(),
{
    if files.len() == 0 {
        Seq::empty()
    } else {
        put(
            collected(files.drop_last()),
            category_name(files.last().file_name@),
            all_lines(retrieved(opt_string(files.last().content))),
        )
    }
}

/// Copies of all lines.
fn lines_of_all(memories: &Memories) -> (v: Vec<String>)
    ensures
        texts(v@) == all_lines(memories@),
{
    let mut v: Vec<String> = Vec::new();
    let n: usize = memories.len();
    let mut i: usize = 0;
    while i < n
        invariant
            n == memories@.len(),
            i <= n,
            texts(v@) == all_lines(memories@.take(i as int)),
        decreases n - i,
    {
        let group = memories.group(i);
        let ghost before = texts(v@);
        let ghost lines = texts(group.lines@);
        let mut k: usize = 0;
        while k < group.lines.len()
            invariant
                k <= group.lines@.len(),
                lines == texts(group.lines@),
                texts(v@) == before + lines.take(k as int),
            decreases group.lines@.len() - k,
        {
            let ghost was = v@;
            v.push(group.lines[k].clone());
            proof {
                assert(texts(v@) =~= texts(was).push(lines[k as int]));
                assert(texts(v@) =~= before + lines.take(k + 1));
            }
            k += 1;
        }
        proof {
            assert(lines.take(k as int) =~= lines);
            assert(memories@.take(i + 1).drop_last() =~= memories@.take(i as int));
        }
        i += 1;
    }
    proof {
        assert(memories@.take(i as int) =~= memories@);
    }
    v
}

/// A text with quotes around it and its special characters escaped.
pub uninterp spec fn quoted(s: Seq<char>) -> Seq<char>;

/// The `Debug` form of a `str`, by `format!`, is the text in double quotes, with the
/// characters escaped that need it. Which they are is left to the name.
#[verifier::external_body]
fn quote(s: &str) -> (q: String)
    ensures
        q@ == quoted(s@),
{
    format!("{:?}", s)
}

/// The lines, each in quotes, within brackets.
pub open spec fn list_text(lines: Seq<Seq<char>>) -> Seq<char> {
    "["@ + join(lines.map_values(|l: Seq<char>| quoted(l)), ", "@) + "]"@
}

/// A group as it is shown: its key and its lines.
pub open spec fn group_text(g: GroupView) -> Seq<char> {
    quoted(g.key) + ": "@ + list_text(g.lines)
}

/// The groups as they are shown, within braces.
pub open spec fn memories_text(groups: Seq<GroupView>) -> Seq<char> {
    "{"@ + join(groups.map_values(|g: GroupView| group_text(g)), ", "@) + "}"@
}

fn show_list(lines: &Vec<String>) -> (s: String)
    ensures
        s@ == list_text(texts(lines@)),
{
    let mut quotes: Vec<String> = Vec::new();
    let mut i: usize = 0;
    while i < lines.len()
        invariant
            i <= lines@.len(),
            quotes@.len() == i,
            forall|j: int| 0 <= j < i ==> (#[trigger] quotes@[j])@ == quoted(lines@[j]@),
        decreases lines@.len() - i,
    {
        quotes.push(quote(lines[i].as_str()));
        i += 1;
    }
    proof {
        assert(texts(quotes@) =~= texts(lines@).map_values(|l: Seq<char>| quoted(l)));
    }
    let mut s = "[".to_string();
    s.append(join_strings(quotes.as_slice(), ", ").as_str());
    s.append("]");
    s
}

/// The memories as they are shown.
pub fn show_memories(memories: &Memories) -> (s: String)
    ensures
        s@ == memories_text(memories@),
{
    let mut parts: Vec<String> = Vec::new();
    let n: usize = memories.len();
    let mut i: usize = 0;
    while i < n
        invariant
            n == memories@.len(),
            i <= n,
            parts@.len() == i,
            forall|j: int| 0 <= j < i ==> (#[trigger] parts@[j])@ == group_text(memories@[j]),
        decreases n - i,
    {
        let group = memories.group(i);
        let mut part = quote(group.key.as_str());
        part.append(": ");
        part.append(show_list(&group.lines).as_str());
        parts.push(part);
        i += 1;
    }
    proof {
        assert(texts(parts@) =~= memories@.map_values(|g: GroupView| group_text(g)));
    }
    let mut s = "{".to_string();
    s.append(join_strings(parts.as_slice(), ", ").as_str());
    s.append("}");
    s
}

/// The lines of a category as the instructions list them.
pub open spec fn listed_lines(lines: Seq<Seq<char>>) -> Seq<char>
    decreases lines.len(),
{
    if lines.len() == 0 {
        Seq::empty()
    } else {
        listed_lines(lines.drop_last()) + "- "@ + lines.last() + "\n"@
    }
}

/// The categories as the instructions list them.
pub open spec fn listed(groups: Seq<GroupView>) -> Seq<char>
    decreases groups.len(),
{
    if groups.len() == 0 {
        Seq::empty()
    } else {
        listed(groups.drop_last()) + "\nCategory: "@ + groups.last().key + "\n"@ + listed_lines(
            groups.last().lines,
        )
    }
}

/// The part of the instructions that lists memories, under a title. There is none
/// where there are no memories or they could not be read.
pub open spec fn section(title: Seq<char>, files: Option<Seq<CategoryFile>>) -> Seq<char> {
    match files {
        None => Seq::empty(),
        Some(f) => if collected(f).len() == 0 {
            Seq::empty()
        } else {
            title + listed(collected(f))
        },
    }
}

/// The files of a directory of memories, where they could be read.
pub open spec fn files_view(files: Option<Vec<CategoryFile>>) -> Option<Seq<CategoryFile>> {
    match files {
        Some(f) => Some(f@),
        None => None,
    }
}

/// The instructions with the memories that the extension starts with.
pub open spec fn instructions_with(
    global: Option<Seq<CategoryFile>>,
    local: Option<Seq<CategoryFile>>,
) -> Seq<char> {
    BASE_INSTRUCTIONS@ + "\n\n"@ + FOLLOW_UP@ + section("\n\nGlobal Memories:\n"@, global)
        + section("\n\nLocal Memories:\n"@, local)
}

fn list_memories(memories: &Memories) -> (s: String)
    ensures
        s@ == listed(memories@),
{
    let mut s = String::new();
    let n: usize = memories.len();
    let mut i: usize = 0;
    while i < n
        invariant
            n == memories@.len(),
            i <= n,
            s@ == listed(memories@.take(i as int)),
        decreases n - i,
    {
        let group = memories.group(i);
        s.append("\nCategory: ");
        s.append(group.key.as_str());
        s.append("\n");
        let ghost head = s@;
        let ghost lines = texts(group.lines@);
        let mut k: usize = 0;
        while k < group.lines.len()
            invariant
                k <= group.lines@.len(),
                lines == texts(group.lines@),
                s@ == head + listed_lines(lines.take(k as int)),
            decreases group.lines@.len() - k,
        {
            s.append("- ");
            s.append(group.lines[k].as_str());
            s.append("\n");
            proof {
                assert(lines.take(k + 1).drop_last() =~= lines.take(k as int));
                assert(s@ =~= head + listed_lines(lines.take(k + 1)));
            }
            k += 1;
        }
        proof {
            assert(lines.take(k as int) =~= lines);
            assert(memories@.take(i + 1).drop_last() =~= memories@.take(i as int));
            assert(s@ =~= listed(memories@.take(i + 1)));
        }
        i += 1;
    }
    proof {
        assert(memories@.take(i as int) =~= memories@);
    }
    s
}

/// The router of the memory tools.
#[derive(Debug)]
pub struct MemoryRouter {
    tools: Vec<Tool>,
    instructions: String,
    global_memory_dir: String,
    local_memory_dir: String,
}

/// The memory tools.
pub open spec fn memory_tools() -> Seq<ToolView> {
    seq![
        ToolView {
            name: "remember_memory"@,
            description: "Stores a memory with optional tags in a specified category"@,
            input_schema: REMEMBER_SCHEMA@,
        },
        ToolView {
            name: "retrieve_memories"@,
            description: "Retrieves all memories from a specified category"@,
            input_schema: CATEGORY_SCHEMA@,
        },
        ToolView {
            name: "remove_memory_category"@,
            description: "Removes all memories within a specified category"@,
            input_schema: CATEGORY_SCHEMA@,
        },
        ToolView {
            name: "remove_specific_memory"@,
            description: "Removes a specific memory within a specified category"@,
            input_schema: REMOVE_SCHEMA@,
        },
    ]
}

/// What a call of a memory tool asks for: the text to put behind the end of a file,
/// the files to read, to write anew or to remove, in the directory of the global or
/// of the local memories.
#[derive(Debug)]
pub enum MemoryAction {
    Remember { path: MemoryPath, text: String, category: String, is_global: bool },
    Retrieve { path: MemoryPath, is_global: bool },
    RetrieveAll { dir: String, is_global: bool },
    Clear { path: MemoryPath, category: String, is_global: bool },
    ClearAll { dir: String, is_global: bool },
    RemoveSpecific {
        path: MemoryPath,
        memory_content: String,
        category: String,
        is_global: bool,
    },
}

/// The view of a [`MemoryAction`].
pub enum MemoryActionView {
    Remember { path: MemoryPathView, text: Seq<char>, category: Seq<char>, is_global: bool },
    Retrieve { path: MemoryPathView, is_global: bool },
    RetrieveAll { dir: Seq<char>, is_global: bool },
    Clear { path: MemoryPathView, category: Seq<char>, is_global: bool },
    ClearAll { dir: Seq<char>, is_global: bool },
    RemoveSpecific {
        path: MemoryPathView,
        memory_content: Seq<char>,
        category: Seq<char>,
        is_global: bool,
    },
}

impl View for MemoryAction {
    type V = MemoryActionView;

    open spec fn view(&self) -> MemoryActionView {
        match *self {
            MemoryAction::Remember { path, text, category, is_global } =>
                MemoryActionView::Remember {
                    path: path@,
                    text: text@,
                    category: category@,
                    is_global,
                },
            MemoryAction::Retrieve { path, is_global } => MemoryActionView::Retrieve {
                path: path@,
                is_global,
            },
            MemoryAction::RetrieveAll { dir, is_global } => MemoryActionView::RetrieveAll {
                dir: dir@,
                is_global,
            },
            MemoryAction::Clear { path, category, is_global } => MemoryActionView::Clear {
                path: path@,
                category: category@,
                is_global,
            },
            MemoryAction::ClearAll { dir, is_global } => MemoryActionView::ClearAll {
                dir: dir@,
                is_global,
            },
            MemoryAction::RemoveSpecific { path, memory_content, category, is_global } =>
                MemoryActionView::RemoveSpecific {
                    path: path@,
                    memory_content: memory_content@,
                    category: category@,
                    is_global,
                },
        }
    }
}

/// The view of what a call asks for.
pub open spec fn action_view(r: Result<MemoryAction, String>) -> Result<
    MemoryActionView,
    Seq<char>,
> {
    match r {
        Ok(a) => Ok(a@),
        Err(e) => Err(e@),
    }
}

/// The complaint about a memory without text.
pub const NO_DATA: &'static str = "Data must exist when remembering a memory";

/// The complaint about a tool that there is not.
pub const UNKNOWN_TOOL: &'static str = "Unknown tool";

/// The path of the file of a category in a directory.
pub open spec fn file_in(dir: Seq<char>, category: Seq<char>) -> MemoryPathView {
    MemoryPathView { dir, file_name: category + ".txt"@ }
}

/// What a call asks for, given the directory that its scope means.
pub open spec fn asked(
    dir: Seq<char>,
    name: Seq<char>,
    args: MemoryArgsView,
    memory_content: Option<Seq<char>>,
) -> Result<MemoryActionView, Seq<char>> {
    let path = file_in(dir, args.category);
    let is_global = args.is_global;
    if name == "remember_memory"@ {
        if args.data is None || args.data->0.len() == 0 {
            Err(NO_DATA@)
        } else {
            Ok(
                MemoryActionView::Remember {
                    path,
                    text: record(args.data->0, args.tags),
                    category: args.category,
                    is_global,
                },
            )
        }
    } else if name == "retrieve_memories"@ {
        if args.category == "*"@ {
            Ok(MemoryActionView::RetrieveAll { dir, is_global })
        } else {
            Ok(MemoryActionView::Retrieve { path, is_global })
        }
    } else if name == "remove_memory_category"@ {
        if args.category == "*"@ {
            Ok(MemoryActionView::ClearAll { dir, is_global })
        } else {
            Ok(MemoryActionView::Clear { path, category: args.category, is_global })
        }
    } else {
        Ok(
            MemoryActionView::RemoveSpecific {
                path,
                memory_content: memory_content->0,
                category: args.category,
                is_global,
            },
        )
    }
}

/// The name is that of a memory tool.
pub open spec fn is_memory_tool(name: Seq<char>) -> bool {
    ||| name == "remember_memory"@
    ||| name == "retrieve_memories"@
    ||| name == "remove_memory_category"@
    ||| name == "remove_specific_memory"@
}

/// The tools that are offered are those that can be called.
pub proof fn law_offered_tools_are_known(name: Seq<char>)
    ensures
        is_memory_tool(name) <==> exists|i: int|
            0 <= i < memory_tools().len() && (#[trigger] memory_tools()[i]).name == name,
{
    let tools = memory_tools();
    assert(tools[0].name == "remember_memory"@);
    assert(tools[1].name == "retrieve_memories"@);
    assert(tools[2].name == "remove_memory_category"@);
    assert(tools[3].name == "remove_specific_memory"@);
}

/// A call to remove a memory names the text of the memory.
pub open spec fn names_its_memory(name: Seq<char>, arguments: Json) -> bool {
    name == "remove_specific_memory"@ && parsed_args(arguments) is Ok ==> string_field(
        arguments,
        "memory_content"@,
    ) is Some
}

/// What is answered once an action is done.
pub open spec fn reply_text(action: MemoryActionView, memories: Seq<GroupView>) -> Seq<char> {
    match action {
        MemoryActionView::Remember { category, .. } => "Stored memory in category: "@ + category,
        MemoryActionView::Retrieve { .. } => "Retrieved memories: "@ + memories_text(memories),
        MemoryActionView::RetrieveAll { .. } => "Retrieved memories: "@ + memories_text(memories),
        MemoryActionView::Clear { category, .. } => "Cleared memories in category: "@ + category,
        MemoryActionView::ClearAll { is_global, .. } => "Cleared all memory "@ + (if is_global {
            "global"@
        } else {
            "local"@
        }) + " categories"@,
        MemoryActionView::RemoveSpecific { category, .. } =>
            "Removed specific memory from category: "@ + category,
    }
}

impl MemoryAction {
    /// What is answered once the action is done. `memories` are those that a call
    /// to retrieve read.
    pub fn reply(&self, memories: &Memories) -> (s: String)
        ensures
            s@ == reply_text(self@, memories@),
    {
        match self {
            MemoryAction::Remember { category, .. } => appended(
                "Stored memory in category: ",
                category.as_str(),
            ),
            MemoryAction::Retrieve { .. } => appended(
                "Retrieved memories: ",
                show_memories(memories).as_str(),
            ),
            MemoryAction::RetrieveAll { .. } => appended(
                "Retrieved memories: ",
                show_memories(memories).as_str(),
            ),
            MemoryAction::Clear { category, .. } => appended(
                "Cleared memories in category: ",
                category.as_str(),
            ),
            MemoryAction::ClearAll { is_global, .. } => {
                let mut s = "Cleared all memory ".to_string();
                if *is_global {
                    s.append("global");
                } else {
                    s.append("local");
                }
                s.append(" categories");
                s
            },
            MemoryAction::RemoveSpecific { category, .. } => appended(
                "Removed specific memory from category: ",
                category.as_str(),
            ),
        }
    }
}

impl MemoryRouter {
    /// The tools that the router offers.
    pub closed spec fn offers(self) -> Seq<ToolView> {
        tool_views(self.tools@)
    }

    /// The text of the instructions.
    pub closed spec fn tells(self) -> Seq<char> {
        self.instructions@
    }

    /// The directory of the global or of the local memories.
    pub closed spec fn dir(self, is_global: bool) -> Seq<char> {
        if is_global {
            self.global_memory_dir@
        } else {
            self.local_memory_dir@
        }
    }

    /// A router whose memories stand in two directories. The instructions list the
    /// memories in the files of the two directories, where they could be read.
    pub fn new(
        global_memory_dir: String,
        local_memory_dir: String,
        global_files: Option<Vec<CategoryFile>>,
        local_files: Option<Vec<CategoryFile>>,
    ) -> (r: MemoryRouter)
        ensures
            r.offers() == memory_tools(),
            r.tells() == instructions_with(files_view(global_files), files_view(local_files)),
            r.dir(true) == global_memory_dir@,
            r.dir(false) == local_memory_dir@,
    {
        let mut tools: Vec<Tool> = Vec::new();
        tools.push(
            Tool::new(
                "remember_memory",
                "Stores a memory with optional tags in a specified category",
                REMEMBER_SCHEMA,
            ),
        );
        tools.push(
            Tool::new(
                "retrieve_memories",
                "Retrieves all memories from a specified category",
                CATEGORY_SCHEMA,
            ),
        );
        tools.push(
            Tool::new(
                "remove_memory_category",
                "Removes all memories within a specified category",
                CATEGORY_SCHEMA,
            ),
        );
        tools.push(
            Tool::new(
                "remove_specific_memory",
                "Removes a specific memory within a specified category",
                REMOVE_SCHEMA,
            ),
        );
        let mut router = MemoryRouter {
            tools,
            instructions: BASE_INSTRUCTIONS.to_string(),
            global_memory_dir,
            local_memory_dir,
        };
        let mut updated = BASE_INSTRUCTIONS.to_string();
        updated.append("\n\n");
        updated.append(FOLLOW_UP);
        updated.append(router.section_text("\n\nGlobal Memories:\n", &global_files).as_str());
        updated.append(router.section_text("\n\nLocal Memories:\n", &local_files).as_str());
        router.set_instructions(updated);
        proof {
            assert(router.offers() =~= memory_tools());
        }
        router
    }

    fn section_text(&self, title: &str, files: &Option<Vec<CategoryFile>>) -> (s: String)
        ensures
            s@ == section(title@, files_view(*files)),
    {
        let mut s = String::new();
        match files {
            None => {},
            Some(f) => {
                let memories = self.retrieve_all(f.as_slice());
                if memories.len() > 0 {
                    s.append(title);
                    s.append(list_memories(&memories).as_str());
                }
            },
        }
        proof {
            assert(s@ =~= section(title@, files_view(*files)));
        }
        s
    }

    /// Changes the instructions.
    pub fn set_instructions(&mut self, new_instructions: String)
        ensures
            final(self).tells() == new_instructions@,
            final(self).offers() == old(self).offers(),
            forall|is_global: bool|
                #[trigger] final(self).dir(is_global) == old(self).dir(is_global),
    {
        self.instructions = new_instructions;
    }

    /// The instructions.
    pub fn get_instructions(&self) -> (s: &str)
        ensures
            s@ == self.tells(),
    {
        self.instructions.as_str()
    }

    /// The directory of the global or of the local memories.
    pub fn memory_dir(&self, is_global: bool) -> (dir: &str)
        ensures
            dir@ == self.dir(is_global),
    {
        if is_global {
            self.global_memory_dir.as_str()
        } else {
            self.local_memory_dir.as_str()
        }
    }

    /// Where the memories of a category stand.
    pub fn get_memory_file(&self, category: &str, is_global: bool) -> (path: MemoryPath)
        ensures
            path@ == file_in(self.dir(is_global), category@),
    {
        MemoryPath {
            dir: self.memory_dir(is_global).to_owned(),
            file_name: memory_file_name(category),
        }
    }

    /// The memories of all categories, read from the files of a directory.
    pub fn retrieve_all(&self, files: &[CategoryFile]) -> (memories: Memories)
        ensures
            memories@ == collected(files@),
            distinct_keys(memories@),
    {
        let mut memories = Memories::new();
        let mut i: usize = 0;
        while i < files.len()
            invariant
                i <= files@.len(),
                memories@ == collected(files@.take(i as int)),
                distinct_keys(memories@),
            decreases files@.len() - i,
        {
            let category = category_of(files[i].file_name.as_str());
            let content: Option<&str> = match &files[i].content {
                Some(c) => Some(c.as_str()),
                None => None,
            };
            let lines = lines_of_all(&self.retrieve(content));
            proof {
                assert(files@.take(i + 1).drop_last() =~= files@.take(i as int));
                assert(opt_text(content) == opt_string(files@[i as int].content));
                law_put(memories@, category@, texts(lines@));
            }
            memories.insert(category, lines);
            i += 1;
        }
        proof {
            assert(files@.take(i as int) =~= files@);
        }
        memories
    }

    /// Where a memory is to be put, and what is to be written behind the end of the
    /// file. The context plays no part.
    pub fn remember(
        &self,
        _context: &str,
        category: &str,
        data: &str,
        tags: &[&str],
        is_global: bool,
    ) -> (r: (MemoryPath, String))
        ensures
            r.0@ == file_in(self.dir(is_global), category@),
            r.1@ == record(data@, str_texts(tags@)),
    {
        (self.get_memory_file(category, is_global), record_text(data, tags))
    }

    /// The memories of a category, read from the content of its file, if there is one.
    pub fn retrieve(&self, content: Option<&str>) -> (memories: Memories)
        ensures
            memories@ == retrieved(opt_text(content)),
            distinct_keys(memories@),
    {
        retrieve(content)
    }

    /// The new content of the file of a category, without the blocks that hold the
    /// text. Where there is no file, nothing is written.
    pub fn remove_specific_memory(&self, content: Option<&str>, memory_content: &str) -> (r: Option<
        String,
    >)
        ensures
            opt_string(r) == match opt_text(content) {
                Some(c) => Some(removed(c, memory_content@)),
                None => None,
            },
    {
        match content {
            Some(c) => Some(without_memory(c, memory_content)),
            None => None,
        }
    }

    /// The file to remove in order to forget a category.
    pub fn clear_memory(&self, category: &str, is_global: bool) -> (path: MemoryPath)
        ensures
            path@ == file_in(self.dir(is_global), category@),
    {
        self.get_memory_file(category, is_global)
    }

    /// The directory to remove in order to forget all global or all local memories.
    pub fn clear_all_global_or_local_memories(&self, is_global: bool) -> (dir: String)
        ensures
            dir@ == self.dir(is_global),
    {
        self.memory_dir(is_global).to_owned()
    }

    /// What a call of a memory tool asks for, or the complaint about it.
    pub fn execute_tool_call(&self, name: &str, arguments: &Json) -> (r: Result<
        MemoryAction,
        String,
    >)
        requires
            names_its_memory(name@, *arguments),
        ensures
            action_view(r) == if !is_memory_tool(name@) {
                Err::<MemoryActionView, Seq<char>>(UNKNOWN_TOOL@)
            } else {
                match parsed_args(*arguments) {
                    Err(e) => Err(e),
                    Ok(args) => asked(
                        self.dir(args.is_global),
                        name@,
                        args,
                        string_field(*arguments, "memory_content"@),
                    ),
                }
            },
    {
        let remembers = same_text(name, "remember_memory");
        let retrieves = same_text(name, "retrieve_memories");
        let clears = same_text(name, "remove_memory_category");
        let removes = same_text(name, "remove_specific_memory");
        if !remembers && !retrieves && !clears && !removes {
            return Err(UNKNOWN_TOOL.to_string());
        }
        let args = match MemoryArgs::from_value(arguments) {
            Ok(a) => a,
            Err(e) => {
                return Err(e);
            },
        };
        let all = same_text(args.category, "*");
        if remembers {
            match args.data {
                Some(data) => {
                    if data.unicode_len() == 0 {
                        return Err(NO_DATA.to_string());
                    }
                    let (path, text) = self.remember(
                        "context",
                        args.category,
                        data,
                        args.tags.as_slice(),
                        args.is_global,
                    );
                    Ok(
                        MemoryAction::Remember {
                            path,
                            text,
                            category: args.category.to_owned(),
                            is_global: args.is_global,
                        },
                    )
                },
                None => Err(NO_DATA.to_string()),
            }
        } else if retrieves {
            if all {
                Ok(
                    MemoryAction::RetrieveAll {
                        dir: self.memory_dir(args.is_global).to_owned(),
                        is_global: args.is_global,
                    },
                )
            } else {
                Ok(
                    MemoryAction::Retrieve {
                        path: self.get_memory_file(args.category, args.is_global),
                        is_global: args.is_global,
                    },
                )
            }
        } else if clears {
            if all {
                Ok(
                    MemoryAction::ClearAll {
                        dir: self.clear_all_global_or_local_memories(args.is_global),
                        is_global: args.is_global,
                    },
                )
            } else {
                Ok(
                    MemoryAction::Clear {
                        path: self.clear_memory(args.category, args.is_global),
                        category: args.category.to_owned(),
                        is_global: args.is_global,
                    },
                )
            }
        } else {
            let memory_content: &str = arguments.get_str("memory_content").unwrap();
            Ok(
                MemoryAction::RemoveSpecific {
                    path: self.get_memory_file(args.category, args.is_global),
                    memory_content: memory_content.to_owned(),
                    category: args.category.to_owned(),
                    is_global: args.is_global,
                },
            )
        }
    }

    /// What a call of a memory tool answers, given its outcome.
    pub fn call_tool(&self, outcome: Result<String, String>) -> (r: Result<Vec<Content>, ToolError>)
        ensures
            match (outcome, r) {
                (Ok(text), Ok(v)) => content_views(v@) == seq![plain_text(text@)],
                (Err(e), Err(f)) => f@ == ToolErrorView::ExecutionError(e@),
                _ => false,
            },
    {
        match outcome {
            Ok(text) => {
                let mut v: Vec<Content> = Vec::new();
                v.push(Content::text(text));
                proof {
                    assert(content_views(v@) =~= seq![plain_text(text@)]);
                }
                Ok(v)
            },
            Err(e) => Err(ToolError::ExecutionError(e)),
        }
    }

    /// The name of the extension.
    pub fn name(&self) -> (s: String)
        ensures
            s@ == "memory"@,
    {
        "memory".to_string()
    }

    /// The instructions.
    pub fn instructions(&self) -> (s: String)
        ensures
            s@ == self.tells(),
    {
        self.instructions.clone()
    }

    /// The router offers tools and does not tell of changes of their list.
    pub fn capabilities(&self) -> (c: ServerCapabilities)
        ensures
            c.tools_list_changed == Some(false),
    {
        ServerCapabilities { tools_list_changed: Some(false) }
    }

    /// The tools that the router offers.
    pub fn list_tools(&self) -> (tools: Vec<Tool>)
        ensures
            tool_views(tools@) == self.offers(),
    {
        duplicate_tools(&self.tools)
    }

    /// The router offers no resources.
    pub fn list_resources(&self) -> (resources: Vec<String>)
        ensures
            resources@.len() == 0,
    {
        Vec::new()
    }

    /// Whatever resource is asked for is empty.
    pub fn read_resource(&self, _uri: &str) -> (content: String)
        ensures
            content@ == ""@,
    {
        "".to_string()
    }
}

} // verus!
