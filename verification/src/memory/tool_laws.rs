//! What a call of a memory tool reads and changes, and what it and the instructions
//! show of the memories.

use vstd::prelude::*;

use crate::json::{field, string_field, Json};
use crate::memory::args::{parsed_args, strings_in, MemoryArgs, MemoryArgsView};
use crate::memory::files::{concerns, content_at, performed, Files};
use crate::memory::laws::{
    law_remove_keeps_each_other_block, law_remove_takes_the_blocks_that_hold_the_text,
};
use crate::memory::router::{
    action_view, all_lines, asked, category_name, collected, file_in, files_view, group_text,
    instructions_with, is_memory_tool, list_text, listed, listed_lines, memories_text,
    memory_tools, names_its_memory, quoted, reply_text, section, CategoryFile, MemoryAction,
    MemoryActionView, MemoryPath, MemoryPathView, MemoryRouter,
};
use crate::memory::store::{
    block_of, blocks_of, distinct_keys, extended, grouped, law_put, lemma_position, lines_at,
    lookup, put, record, retrieved, with_block, Group, GroupView,
};
use crate::memory::wording::{
    BASE_INSTRUCTIONS, CATEGORY_SCHEMA, FOLLOW_UP, REMEMBER_SCHEMA, REMOVE_SCHEMA,
};
use crate::text::{contains_text, join, lines, lowercase, opt_string, split, words};
use crate::text_laws::{
    clean_before, law_join_of_split, law_split_of_join, lemma_join_front, separable,
};

verus! {

/// The values of a list of tags that are texts are found, each in its place.
pub proof fn law_tags_are_the_texts_of_the_list(a: Seq<Json>, b: Seq<Json>, value: Json)
    ensures
        strings_in(a + b) == strings_in(a) + strings_in(b),
        match value {
            Json::Text(s) => strings_in(seq![value]) == seq![s@],
            _ => strings_in(seq![value]).len() == 0,
        },
    decreases b.len(),
{
    assert(seq![value].drop_last() =~= Seq::<Json>::empty());
    assert(strings_in(Seq::empty()) =~= Seq::<Seq<char>>::empty());
    if let Json::Text(s) = value {
        assert(Seq::empty().push(s@) =~= seq![s@]);
    }
    if b.len() == 0 {
        assert(a + b =~= a);
        assert(strings_in(a) + strings_in(b) =~= strings_in(a));
    } else {
        assert((a + b).drop_last() =~= a + b.drop_last());
        law_tags_are_the_texts_of_the_list(a, b.drop_last(), value);
        assert(strings_in(a + b) =~= strings_in(a) + strings_in(b));
    }
}

/// Arguments are read as they stand in the call: the category, which may not be empty,
/// the text, the tags, given as a list or as one text, and the scope, given as a truth
/// value or as a text and local where it is not given.
pub proof fn law_arguments_are_read_as_given(args: Json)
    ensures
        parsed_args(args) is Ok <==> (string_field(args, "category"@) matches Some(c) && c.len()
            > 0) && (field(args, "is_global"@) is None || field(args, "is_global"@)->0 is Bool
            || field(args, "is_global"@)->0 is Text),
        parsed_args(args) matches Ok(a) ==> string_field(args, "category"@) == Some(a.category),
        parsed_args(args) matches Ok(a) ==> a.data == string_field(args, "data"@),
        parsed_args(args) matches Ok(a) ==> match field(args, "tags"@) {
            Some(Json::Array(values)) => a.tags == strings_in(values@),
            Some(Json::Text(s)) => a.tags == seq![s@],
            _ => a.tags.len() == 0,
        },
        parsed_args(args) matches Ok(a) ==> match field(args, "is_global"@) {
            Some(Json::Bool(b)) => a.is_global == b,
            Some(Json::Text(s)) => a.is_global == (lowercase(s@) == "true"@),
            _ => a.is_global == false,
        },
        string_field(args, "category"@) is None || string_field(args, "category"@)->0.len() == 0
            ==> parsed_args(args) == Err::<MemoryArgsView, Seq<char>>(
            "Category must be a string"@,
        ),
        (string_field(args, "category"@) matches Some(c) && c.len() > 0) && parsed_args(args)
            is Err ==> parsed_args(args) == Err::<MemoryArgsView, Seq<char>>(
            "is_global must be a boolean or string 'true'/'false'"@,
        ),
{
}

/// The views of arguments, groups, paths, actions and files hold what those hold.
pub proof fn law_memory_views_are_faithful(
    args: MemoryArgs,
    g: Group,
    path: MemoryPath,
    r: Result<MemoryAction, String>,
    files: Option<Vec<CategoryFile>>,
)
    ensures
        args@.category == args.category@,
        args@.is_global == args.is_global,
        match args.data {
            Some(d) => args@.data == Some(d@),
            None => args@.data is None,
        },
        args@.tags.len() == args.tags@.len(),
        forall|i: int| 0 <= i < args.tags@.len() ==> #[trigger] args@.tags[i] == args.tags@[i]@,
        g@.key == g.key@,
        g@.lines.len() == g.lines@.len(),
        forall|i: int| 0 <= i < g.lines@.len() ==> #[trigger] g@.lines[i] == g.lines@[i]@,
        path@.dir == path.dir@,
        path@.file_name == path.file_name@,
        match r {
            Ok(a) => action_view(r) == Ok::<MemoryActionView, Seq<char>>(a@),
            Err(e) => action_view(r) == Err::<MemoryActionView, Seq<char>>(e@),
        },
        match files {
            Some(f) => files_view(files) == Some(f@),
            None => files_view(files) is None,
        },
{
}

/// The view of an action holds its path or directory, its texts and its scope.
pub proof fn law_action_views_are_faithful(a: MemoryAction)
    ensures
        match a {
            MemoryAction::Remember { path, text, category, is_global } => a@ == (
            MemoryActionView::Remember {
                path: path@,
                text: text@,
                category: category@,
                is_global,
            }),
            MemoryAction::Retrieve { path, is_global } => a@ == (MemoryActionView::Retrieve {
                path: path@,
                is_global,
            }),
            MemoryAction::RetrieveAll { dir, is_global } => a@ == (
            MemoryActionView::RetrieveAll { dir: dir@, is_global }),
            MemoryAction::Clear { path, category, is_global } => a@ == (MemoryActionView::Clear {
                path: path@,
                category: category@,
                is_global,
            }),
            MemoryAction::ClearAll { dir, is_global } => a@ == (MemoryActionView::ClearAll {
                dir: dir@,
                is_global,
            }),
            MemoryAction::RemoveSpecific { path, memory_content, category, is_global } => a@ == (
            MemoryActionView::RemoveSpecific {
                path: path@,
                memory_content: memory_content@,
                category: category@,
                is_global,
            }),
        },
{
}

/// The file of a category stands in its directory and is named by the category.
pub proof fn law_files_are_named_by_their_category(dir: Seq<char>, category: Seq<char>)
    ensures
        file_in(dir, category).dir == dir,
        file_in(dir, category).file_name.len() == category.len() + 4,
        file_in(dir, category).file_name.take(category.len() as int) == category,
        file_in(dir, category).file_name.skip(category.len() as int) == ".txt"@,
{
    reveal_strlit(".txt");
    let name = file_in(dir, category).file_name;
    assert(name.take(category.len() as int) =~= category);
    assert(name.skip(category.len() as int) =~= ".txt"@);
}

proof fn lemma_tool_names()
    ensures
        "remember_memory"@ != "retrieve_memories"@,
        "remember_memory"@ != "remove_memory_category"@,
        "remember_memory"@ != "remove_specific_memory"@,
        "retrieve_memories"@ != "remove_memory_category"@,
        "retrieve_memories"@ != "remove_specific_memory"@,
        "remove_memory_category"@ != "remove_specific_memory"@,
{
    reveal_strlit("remember_memory");
    reveal_strlit("retrieve_memories");
    reveal_strlit("remove_memory_category");
    reveal_strlit("remove_specific_memory");
    assert("remember_memory"@.len() == 15);
    assert("retrieve_memories"@.len() == 17);
    assert("remove_memory_category"@[7] == 'm');
    assert("remove_specific_memory"@[7] == 's');
    assert("remove_memory_category"@.len() == 22);
    assert("remove_specific_memory"@.len() == 22);
}

/// A call of a memory tool stays with its category: whatever file it reads or changes
/// is the file of that category, in the directory of the scope that it names. Only a
/// call that retrieves or removes the category `*` is about the whole directory.
pub proof fn law_calls_stay_with_their_category(
    router: MemoryRouter,
    name: Seq<char>,
    arguments: Json,
    args: MemoryArgsView,
    action: MemoryActionView,
    file: MemoryPathView,
)
    requires
        is_memory_tool(name),
        parsed_args(arguments) == Ok::<MemoryArgsView, Seq<char>>(args),
        asked(
            router.dir(args.is_global),
            name,
            args,
            string_field(arguments, "memory_content"@),
        ) == Ok::<MemoryActionView, Seq<char>>(action),
        string_field(arguments, "category"@) != Some("*"@) || name == "remember_memory"@ || name
            == "remove_specific_memory"@,
    ensures
        ({
            let c = string_field(arguments, "category"@)->0;
            let own = file_in(router.dir(args.is_global), c);
            &&& concerns(action, file) ==> file == own
            &&& match action {
                MemoryActionView::Remember { path, category, is_global, .. } => path == own
                    && category == c && is_global == args.is_global,
                MemoryActionView::Retrieve { path, is_global } => path == own && is_global
                    == args.is_global,
                MemoryActionView::Clear { path, category, is_global } => path == own && category
                    == c && is_global == args.is_global,
                MemoryActionView::RemoveSpecific { path, category, is_global, .. } => path == own
                    && category == c && is_global == args.is_global,
                MemoryActionView::RetrieveAll { .. } => false,
                MemoryActionView::ClearAll { .. } => false,
            }
        }),
{
    lemma_tool_names();
}

/// A call to remember puts the text behind the end of the file of its category: with a
/// line of the tags before it, where there are any, and an empty line behind it. Other
/// files stay as they are. Without a text nothing is done.
pub proof fn law_remember_call_extends_its_file(
    router: MemoryRouter,
    arguments: Json,
    args: MemoryArgsView,
    files: Files,
    other: MemoryPathView,
)
    requires
        parsed_args(arguments) == Ok::<MemoryArgsView, Seq<char>>(args),
    ensures
        ({
            let r = asked(
                router.dir(args.is_global),
                "remember_memory"@,
                args,
                string_field(arguments, "memory_content"@),
            );
            let own = file_in(
                router.dir(args.is_global),
                string_field(arguments, "category"@)->0,
            );
            let before = match content_at(files, own) {
                Some(content) => content,
                None => Seq::empty(),
            };
            match string_field(arguments, "data"@) {
                Some(d) => if d.len() == 0 {
                    r == Err::<MemoryActionView, Seq<char>>(
                        "Data must exist when remembering a memory"@,
                    )
                } else {
                    &&& r is Ok
                    &&& content_at(performed(files, r->Ok_0), own) == Some(
                        before + (if args.tags.len() == 0 {
                            Seq::empty()
                        } else {
                            "# "@ + join(args.tags, " "@) + "\n"@
                        }) + d + "\n\n"@,
                    )
                    &&& other != own ==> content_at(performed(files, r->Ok_0), other) == content_at(
                        files,
                        other,
                    )
                },
                None => r == Err::<MemoryActionView, Seq<char>>(
                    "Data must exist when remembering a memory"@,
                ),
            }
        }),
{
    let own = file_in(router.dir(args.is_global), args.category);
    let before = match content_at(files, own) {
        Some(content) => content,
        None => Seq::empty(),
    };
    if let Some(d) = args.data {
        let head = if args.tags.len() == 0 {
            Seq::empty()
        } else {
            "# "@ + join(args.tags, " "@) + "\n"@
        };
        assert(record(d, args.tags) =~= head + d + "\n\n"@);
        assert(before + record(d, args.tags) =~= before + head + d + "\n\n"@);
        assert(Seq::empty() + record(d, args.tags) =~= record(d, args.tags));
    }
}

/// A call to retrieve changes no file. It asks for the file of its category, or for all
/// of the directory where the category is `*`.
pub proof fn law_retrieve_call_reads_its_file(
    router: MemoryRouter,
    arguments: Json,
    args: MemoryArgsView,
    files: Files,
)
    requires
        parsed_args(arguments) == Ok::<MemoryArgsView, Seq<char>>(args),
    ensures
        ({
            let c = string_field(arguments, "category"@)->0;
            let dir = router.dir(args.is_global);
            let r = asked(
                dir,
                "retrieve_memories"@,
                args,
                string_field(arguments, "memory_content"@),
            );
            &&& r is Ok
            &&& performed(files, r->Ok_0) == files
            &&& r->Ok_0 == if c == "*"@ {
                MemoryActionView::RetrieveAll { dir, is_global: args.is_global }
            } else {
                MemoryActionView::Retrieve { path: file_in(dir, c), is_global: args.is_global }
            }
        }),
{
    lemma_tool_names();
}

/// A call to remove a category leaves no file of it, and all other files; where the
/// category is `*`, it is the directory of its scope that is removed.
pub proof fn law_clear_call_removes_its_file(
    router: MemoryRouter,
    arguments: Json,
    args: MemoryArgsView,
    files: Files,
    other: MemoryPathView,
)
    requires
        parsed_args(arguments) == Ok::<MemoryArgsView, Seq<char>>(args),
    ensures
        ({
            let c = string_field(arguments, "category"@)->0;
            let dir = router.dir(args.is_global);
            let r = asked(
                dir,
                "remove_memory_category"@,
                args,
                string_field(arguments, "memory_content"@),
            );
            &&& r is Ok
            &&& c == "*"@ ==> r->Ok_0 == (MemoryActionView::ClearAll {
                dir,
                is_global: args.is_global,
            }) && (other.dir == dir ==> content_at(performed(files, r->Ok_0), other) is None)
            &&& c != "*"@ ==> content_at(performed(files, r->Ok_0), file_in(dir, c)) is None && (
            other != file_in(dir, c) ==> content_at(performed(files, r->Ok_0), other) == content_at(
                files,
                other,
            ))
        }),
{
    lemma_tool_names();
}

/// After a call to remove a text from a category, no block of its file holds the text,
/// each block that did not hold it is still there, and all other files are as they
/// were. Where there is no file, none is made.
pub proof fn law_remove_call_takes_the_text_from_its_file(
    router: MemoryRouter,
    arguments: Json,
    args: MemoryArgsView,
    files: Files,
    other: MemoryPathView,
    text: Seq<char>,
    k: int,
)
    requires
        parsed_args(arguments) == Ok::<MemoryArgsView, Seq<char>>(args),
        string_field(arguments, "memory_content"@) == Some(text),
        text.len() > 0,
    ensures
        ({
            let own = file_in(
                router.dir(args.is_global),
                string_field(arguments, "category"@)->0,
            );
            let r = asked(
                router.dir(args.is_global),
                "remove_specific_memory"@,
                args,
                string_field(arguments, "memory_content"@),
            );
            let after = performed(files, r->Ok_0);
            &&& r is Ok
            &&& content_at(files, own) is None ==> content_at(after, own) is None
            &&& content_at(files, own) matches Some(content) ==> (content_at(after, own)
                matches Some(left) && (forall|j: int|
                0 <= j < blocks_of(left).len() ==> !contains_text(
                    #[trigger] blocks_of(left)[j],
                    text,
                )) && (0 <= k < blocks_of(content).len() && !contains_text(
                blocks_of(content)[k],
                text,
            ) ==> exists|j: int|
                0 <= j < blocks_of(left).len() && #[trigger] blocks_of(left)[j] == blocks_of(
                    content,
                )[k]))
            &&& other != own ==> content_at(after, other) == content_at(files, other)
        }),
{
    lemma_tool_names();
    let own = file_in(router.dir(args.is_global), args.category);
    if let Some(content) = content_at(files, own) {
        law_remove_takes_the_blocks_that_hold_the_text(content, text);
        if 0 <= k < blocks_of(content).len() && !contains_text(blocks_of(content)[k], text) {
            law_remove_keeps_each_other_block(content, text, k);
        }
    }
}

/// The memory tools go by four names, and are offered under them with their schemas.
pub proof fn law_memory_tools_go_by_their_names(name: Seq<char>, arguments: Json)
    ensures
        is_memory_tool(name) <==> name == "remember_memory"@ || name == "retrieve_memories"@ || name
            == "remove_memory_category"@ || name == "remove_specific_memory"@,
        memory_tools().len() == 4,
        memory_tools()[0].name == "remember_memory"@,
        memory_tools()[0].description
            == "Stores a memory with optional tags in a specified category"@,
        memory_tools()[0].input_schema == REMEMBER_SCHEMA@,
        memory_tools()[1].name == "retrieve_memories"@,
        memory_tools()[1].description == "Retrieves all memories from a specified category"@,
        memory_tools()[1].input_schema == CATEGORY_SCHEMA@,
        memory_tools()[2].name == "remove_memory_category"@,
        memory_tools()[2].description == "Removes all memories within a specified category"@,
        memory_tools()[2].input_schema == CATEGORY_SCHEMA@,
        memory_tools()[3].name == "remove_specific_memory"@,
        memory_tools()[3].description
            == "Removes a specific memory within a specified category"@,
        memory_tools()[3].input_schema == REMOVE_SCHEMA@,
        names_its_memory(name, arguments) <==> (name == "remove_specific_memory"@ && parsed_args(
            arguments,
        ) is Ok ==> string_field(arguments, "memory_content"@) is Some),
{
}

/// What is answered names the category of the action, or shows the memories that were
/// read, or the scope that was cleared.
pub proof fn law_replies_tell_what_was_done(
    path: MemoryPathView,
    dir: Seq<char>,
    text: Seq<char>,
    category: Seq<char>,
    is_global: bool,
    memories: Seq<GroupView>,
)
    ensures
        reply_text(MemoryActionView::Remember { path, text, category, is_global }, memories)
            == "Stored memory in category: "@ + category,
        reply_text(MemoryActionView::Clear { path, category, is_global }, memories)
            == "Cleared memories in category: "@ + category,
        reply_text(
            MemoryActionView::RemoveSpecific { path, memory_content: text, category, is_global },
            memories,
        ) == "Removed specific memory from category: "@ + category,
        reply_text(MemoryActionView::Retrieve { path, is_global }, memories)
            == "Retrieved memories: "@ + memories_text(memories),
        reply_text(MemoryActionView::RetrieveAll { dir, is_global }, memories)
            == "Retrieved memories: "@ + memories_text(memories),
        reply_text(MemoryActionView::ClearAll { dir, is_global: true }, memories)
            == "Cleared all memory global categories"@,
        reply_text(MemoryActionView::ClearAll { dir, is_global: false }, memories)
            == "Cleared all memory local categories"@,
{
    reveal_strlit("Cleared all memory ");
    reveal_strlit("global");
    reveal_strlit("local");
    reveal_strlit(" categories");
    reveal_strlit("Cleared all memory global categories");
    reveal_strlit("Cleared all memory local categories");
    assert("Cleared all memory "@ + "global"@ + " categories"@
        =~= "Cleared all memory global categories"@);
    assert("Cleared all memory "@ + "local"@ + " categories"@
        =~= "Cleared all memory local categories"@);
}

/// Under a key stand the lines of the first group that has the key.
pub proof fn law_groups_are_found_by_their_key(groups: Seq<GroupView>, key: Seq<char>, i: int)
    requires
        0 <= i < groups.len(),
    ensures
        groups[i].key == key && (forall|j: int| 0 <= j < i ==> (#[trigger] groups[j]).key != key)
            ==> lookup(groups, key) == Some(groups[i].lines) && lines_at(groups, key)
            == groups[i].lines,
        (forall|j: int| 0 <= j < groups.len() ==> (#[trigger] groups[j]).key != key) ==> lookup(
            groups,
            key,
        ) is None && lines_at(groups, key).len() == 0,
        lookup(Seq::empty(), key) is None,
{
    lemma_position(groups, key);
    lemma_position(Seq::empty(), key);
}

/// Putting lines under a key keeps the groups in their order. A new key comes last.
pub proof fn law_put_keeps_the_order(groups: Seq<GroupView>, key: Seq<char>, lines: Seq<Seq<char>>)
    ensures
        ({
            let after = put(groups, key, lines);
            &&& after.len() == groups.len() + (if lookup(groups, key) is Some {
                0int
            } else {
                1
            })
            &&& forall|j: int| 0 <= j < groups.len() ==> (#[trigger] after[j]).key == groups[j].key
            &&& lookup(groups, key) is None ==> after.last() == (GroupView { key, lines })
        }),
        distinct_keys(groups) <==> forall|i: int, j: int|
            0 <= i < j < groups.len() ==> (#[trigger] groups[i]).key != (#[trigger] groups[j]).key,
{
    lemma_position(groups, key);
}

/// A block adds its lines to those of its group. The group is named by the words of the
/// first line where that begins with a `#`, and then the line itself is not added;
/// otherwise it is the group of the memories without tags. Other groups stay as they
/// are, and so do all where the block has no lines.
pub proof fn law_blocks_join_their_group(
    groups: Seq<GroupView>,
    block: Seq<char>,
    other: Seq<char>,
)
    ensures
        lines(block).len() == 0 ==> with_block(groups, block) == groups,
        lines(block).len() > 0 ==> ({
            let all = lines(block);
            let tagged = all[0].len() > 0 && all[0][0] == '#';
            let key = if tagged {
                join(words(all[0].skip(1)), seq![' '])
            } else {
                "untagged"@
            };
            let own = if tagged {
                all.skip(1)
            } else {
                all
            };
            let after = with_block(groups, block);
            &&& after == put(groups, key, lines_at(groups, key) + own)
            &&& lookup(after, key) == Some(lines_at(groups, key) + own)
            &&& other != key ==> lookup(after, other) == lookup(groups, other)
        }),
{
    reveal_strlit(" ");
    assert(" "@ =~= seq![' ']);
    let all = lines(block);
    if all.len() > 0 {
        let tagged = all[0].len() > 0 && all[0][0] == '#';
        let key = if tagged {
            join(words(all[0].skip(1)), seq![' '])
        } else {
            "untagged"@
        };
        let own = if tagged {
            all.skip(1)
        } else {
            all
        };
        assert(with_block(groups, block) == extended(groups, key, own));
        law_put(groups, key, lines_at(groups, key) + own);
    }
}

/// The memories of a category are those of the blocks of its file, taken in one after
/// the other; a category without a file has none.
pub proof fn law_memories_are_those_of_the_blocks(
    blocks: Seq<Seq<char>>,
    block: Seq<char>,
    content: Seq<char>,
)
    ensures
        grouped(Seq::empty()) == Seq::<GroupView>::empty(),
        grouped(blocks.push(block)) == with_block(grouped(blocks), block),
        retrieved(None) == Seq::<GroupView>::empty(),
        retrieved(Some(content)) == grouped(split(content, seq!['\n', '\n'])),
{
    reveal_strlit("\n\n");
    assert("\n\n"@ =~= seq!['\n', '\n']);
    assert(blocks.push(block).drop_last() =~= blocks);
}

/// A memory is written as its text and an empty line, with its tags, where it has some,
/// on a line before it.
pub proof fn law_records_hold_text_and_tags(
    data: Seq<char>,
    tags: Seq<Seq<char>>,
    tag: Seq<char>,
)
    ensures
        record(data, Seq::empty()) == data + seq!['\n', '\n'],
        record(data, seq![tag]) == seq!['#', ' '] + tag + seq!['\n'] + data + seq!['\n', '\n'],
        record(data, tags.push(tag)) == seq!['#', ' '] + join(tags.push(tag), seq![' ']) + seq![
            '\n',
        ] + data + seq!['\n', '\n'],
        record(data, tags) == block_of(data, tags) + seq!['\n', '\n'],
{
    reveal_strlit("\n\n");
    reveal_strlit("\n");
    reveal_strlit("# ");
    reveal_strlit(" ");
    assert(" "@ =~= seq![' ']);
    assert("# "@ =~= seq!['#', ' ']);
    assert("\n"@ =~= seq!['\n']);
    assert("\n\n"@ =~= seq!['\n', '\n']);
    assert(join(seq![tag], " "@) == tag);
}

/// The category that a file name gives is the name, where `.txt` does not stand in it.
/// Where it does, what stands before the first place and the category of what stands
/// behind make up the category.
pub proof fn law_categories_are_names_without_the_ending(a: Seq<char>, b: Seq<char>)
    ensures
        !contains_text(a, ".txt"@) ==> category_name(a) == a,
        clean_before(a, ".txt"@) ==> category_name(a + ".txt"@ + b) == a + category_name(b),
{
    let p = ".txt"@;
    reveal_strlit(".txt");
    let empty = Seq::<char>::empty();
    if !contains_text(a, p) {
        let parts = seq![a];
        assert(separable(parts, p));
        law_split_of_join(parts, p);
        assert(join(parts, p) == a);
        assert(join(parts, empty) == a);
    }
    if clean_before(a, p) {
        let rest = split(b, p);
        law_join_of_split(b, p);
        let parts = seq![a] + rest;
        assert forall|k: int| 0 <= k < parts.len() - 1 implies #[trigger] clean_before(
            parts[k],
            p,
        ) by {
            if k > 0 {
                assert(parts[k] == rest[k - 1]);
                assert(clean_before(rest[k - 1], p));
            }
        }
        assert(parts.last() == rest.last());
        assert(separable(parts, p));
        assert(parts.drop_first() =~= rest);
        lemma_join_front(parts, p);
        assert(join(parts, p) =~= a + p + b);
        law_split_of_join(parts, p);
        lemma_join_front(parts, empty);
        assert(join(parts, empty) =~= a + join(rest, empty));
    }
}

/// The lines of groups put one behind the other are those of the first and then those
/// of the second.
pub proof fn law_lines_of_groups_join(a: Seq<GroupView>, b: Seq<GroupView>, g: GroupView)
    ensures
        all_lines(a + b) == all_lines(a) + all_lines(b),
        all_lines(seq![g]) == g.lines,
        all_lines(Seq::empty()).len() == 0,
    decreases b.len(),
{
    assert(seq![g].drop_last() =~= Seq::<GroupView>::empty());
    assert(all_lines(Seq::empty()) =~= Seq::<Seq<char>>::empty());
    assert(Seq::empty() + g.lines =~= g.lines);
    if b.len() == 0 {
        assert(a + b =~= a);
        assert(all_lines(a) + all_lines(b) =~= all_lines(a));
    } else {
        assert((a + b).drop_last() =~= a + b.drop_last());
        law_lines_of_groups_join(a, b.drop_last(), g);
        assert(all_lines(a + b) =~= all_lines(a) + all_lines(b));
    }
}

/// Each file of a directory puts the lines of its memories under its category, and
/// changes no other. A category that no file gives is not found.
pub proof fn law_files_are_collected_one_by_one(
    files: Seq<CategoryFile>,
    file: CategoryFile,
    other: Seq<char>,
)
    ensures
        ({
            let category = category_name(file.file_name@);
            let after = collected(files.push(file));
            &&& after == put(
                collected(files),
                category,
                all_lines(retrieved(opt_string(file.content))),
            )
            &&& lookup(after, category) == Some(all_lines(retrieved(opt_string(file.content))))
            &&& other != category ==> lookup(after, other) == lookup(collected(files), other)
        }),
        collected(Seq::empty()) == Seq::<GroupView>::empty(),
{
    assert(files.push(file).drop_last() =~= files);
    law_put(
        collected(files),
        category_name(file.file_name@),
        all_lines(retrieved(opt_string(file.content))),
    );
}

/// A category is found among the memories of a directory only where some file gives it.
pub proof fn law_collected_categories_have_a_file(files: Seq<CategoryFile>, category: Seq<char>)
    requires
        lookup(collected(files), category) is Some,
    ensures
        exists|i: int|
            0 <= i < files.len() && category_name((#[trigger] files[i]).file_name@) == category,
    decreases files.len(),
{
    if files.len() == 0 {
        lemma_position(Seq::empty(), category);
    } else {
        let init = files.drop_last();
        let last = files.last();
        assert(init.push(last) =~= files);
        law_files_are_collected_one_by_one(init, last, category);
        if category_name(last.file_name@) == category {
            assert(files[files.len() - 1] == last);
        } else {
            law_collected_categories_have_a_file(init, category);
            let i = choose|i: int|
                0 <= i < init.len() && category_name((#[trigger] init[i]).file_name@) == category;
            assert(files[i] == init[i]);
        }
    }
}

/// A group is shown by its key and behind it, in brackets, all of its lines, with commas
/// between them; groups are shown in braces, with commas between them.
pub proof fn law_shown_memories_hold_each_line(
    ls: Seq<Seq<char>>,
    line: Seq<char>,
    groups: Seq<GroupView>,
    g: GroupView,
)
    ensures
        list_text(Seq::empty()) == "[]"@,
        list_text(seq![line]) == seq!['['] + quoted(line) + seq![']'],
        ls.len() > 0 ==> list_text(ls.push(line)) == list_text(ls).drop_last() + seq![',', ' ']
            + quoted(line) + seq![']'],
        group_text(g) == quoted(g.key) + seq![':', ' '] + list_text(g.lines),
        memories_text(Seq::empty()) == "{}"@,
        memories_text(seq![g]) == seq!['{'] + group_text(g) + seq!['}'],
        groups.len() > 0 ==> memories_text(groups.push(g)) == memories_text(groups).drop_last()
            + seq![',', ' '] + group_text(g) + seq!['}'],
{
    reveal_strlit("[");
    reveal_strlit("]");
    reveal_strlit("[]");
    reveal_strlit("{");
    reveal_strlit("}");
    reveal_strlit("{}");
    reveal_strlit(", ");
    reveal_strlit(": ");
    assert(", "@ =~= seq![',', ' ']);
    assert(": "@ =~= seq![':', ' ']);
    let f = |l: Seq<char>| quoted(l);
    assert(Seq::<Seq<char>>::empty().map_values(f) =~= Seq::empty());
    assert(list_text(Seq::empty()) =~= "[]"@);
    assert(seq![line].map_values(f) =~= seq![quoted(line)]);
    assert(list_text(seq![line]) =~= seq!['['] + quoted(line) + seq![']']);
    if ls.len() > 0 {
        let all = ls.push(line).map_values(f);
        assert(all.drop_last() =~= ls.map_values(f));
        assert(all.last() == quoted(line));
        let inner = join(ls.map_values(f), ", "@);
        assert(list_text(ls).drop_last() =~= "["@ + inner);
        assert(list_text(ls.push(line)) =~= "["@ + inner + ", "@ + quoted(line) + "]"@);
        assert(list_text(ls.push(line)) =~= list_text(ls).drop_last() + seq![',', ' '] + quoted(
            line,
        ) + seq![']']);
    }
    let h = |x: GroupView| group_text(x);
    assert(Seq::<GroupView>::empty().map_values(h) =~= Seq::empty());
    assert(memories_text(Seq::empty()) =~= "{}"@);
    assert(seq![g].map_values(h) =~= seq![group_text(g)]);
    assert(memories_text(seq![g]) =~= seq!['{'] + group_text(g) + seq!['}']);
    if groups.len() > 0 {
        let all = groups.push(g).map_values(h);
        assert(all.drop_last() =~= groups.map_values(h));
        assert(all.last() == group_text(g));
        let inner = join(groups.map_values(h), ", "@);
        assert(memories_text(groups).drop_last() =~= "{"@ + inner);
        assert(memories_text(groups.push(g)) =~= "{"@ + inner + ", "@ + group_text(g) + "}"@);
        assert(memories_text(groups.push(g)) =~= memories_text(groups).drop_last() + seq![
            ',',
            ' ',
        ] + group_text(g) + seq!['}']);
    }
}

/// The instructions list each category with each of its lines: lists put one behind
/// the other are the list of both.
pub proof fn law_listed_lines_join(a: Seq<Seq<char>>, b: Seq<Seq<char>>, line: Seq<char>)
    ensures
        listed_lines(a + b) == listed_lines(a) + listed_lines(b),
        listed_lines(seq![line]) == seq!['-', ' '] + line + seq!['\n'],
        listed_lines(Seq::empty()).len() == 0,
    decreases b.len(),
{
    reveal_strlit("- ");
    reveal_strlit("\n");
    assert(seq![line].drop_last() =~= Seq::<Seq<char>>::empty());
    assert(listed_lines(Seq::empty()) =~= Seq::<char>::empty());
    assert(listed_lines(seq![line]) =~= seq!['-', ' '] + line + seq!['\n']);
    if b.len() == 0 {
        assert(a + b =~= a);
        assert(listed_lines(a) + listed_lines(b) =~= listed_lines(a));
    } else {
        assert((a + b).drop_last() =~= a + b.drop_last());
        law_listed_lines_join(a, b.drop_last(), line);
        assert(listed_lines(a + b) =~= listed_lines(a) + listed_lines(b));
    }
}

/// The instructions list the categories one behind the other, each under its name.
pub proof fn law_listed_categories_join(a: Seq<GroupView>, b: Seq<GroupView>, g: GroupView)
    ensures
        listed(a + b) == listed(a) + listed(b),
        listed(seq![g]) == "\nCategory: "@ + g.key + seq!['\n'] + listed_lines(g.lines),
        listed(Seq::empty()).len() == 0,
    decreases b.len(),
{
    reveal_strlit("\n");
    assert("\n"@ =~= seq!['\n']);
    assert(seq![g].drop_last() =~= Seq::<GroupView>::empty());
    assert(listed(Seq::empty()) =~= Seq::<char>::empty());
    assert(listed(seq![g]) =~= "\nCategory: "@ + g.key + seq!['\n'] + listed_lines(g.lines));
    if b.len() == 0 {
        assert(a + b =~= a);
        assert(listed(a) + listed(b) =~= listed(a));
    } else {
        assert((a + b).drop_last() =~= a + b.drop_last());
        law_listed_categories_join(a, b.drop_last(), g);
        assert(listed(a + b) =~= listed(a) + listed(b));
    }
}

/// The instructions are the same for all, and behind them the global memories and then
/// the local ones, each under its title, where there are any that could be read.
pub proof fn law_instructions_list_both_scopes(
    global: Seq<CategoryFile>,
    local: Option<Seq<CategoryFile>>,
    files: Seq<CategoryFile>,
    title: Seq<char>,
)
    ensures
        instructions_with(None, None) == BASE_INSTRUCTIONS@ + seq!['\n', '\n'] + FOLLOW_UP@,
        instructions_with(Some(global), None) == instructions_with(None, None) + (if collected(
            global,
        ).len() == 0 {
            Seq::empty()
        } else {
            "\n\nGlobal Memories:\n"@ + listed(collected(global))
        }),
        instructions_with(Some(global), Some(files)) == instructions_with(Some(global), None) + (
        if collected(files).len() == 0 {
            Seq::empty()
        } else {
            "\n\nLocal Memories:\n"@ + listed(collected(files))
        }),
        instructions_with(None, Some(files)) == instructions_with(None, None) + (if collected(
            files,
        ).len() == 0 {
            Seq::empty()
        } else {
            "\n\nLocal Memories:\n"@ + listed(collected(files))
        }),
        section(title, None).len() == 0,
        collected(files).len() == 0 ==> section(title, Some(files)).len() == 0,
        collected(files).len() > 0 ==> section(title, Some(files)) == title + listed(
            collected(files),
        ),
{
    reveal_strlit("\n\n");
    assert("\n\n"@ =~= seq!['\n', '\n']);
    let base = BASE_INSTRUCTIONS@ + "\n\n"@ + FOLLOW_UP@;
    let g = section("\n\nGlobal Memories:\n"@, Some(global));
    let l = section("\n\nLocal Memories:\n"@, Some(files));
    let empty = Seq::<char>::empty();
    assert(instructions_with(None, None) =~= base);
    assert(instructions_with(Some(global), None) =~= base + g);
    assert(instructions_with(Some(global), Some(files)) =~= base + g + l);
    assert(instructions_with(None, Some(files)) =~= base + l);
}

} // verus!
