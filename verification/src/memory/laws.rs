//! What holds of the files of memories.

use vstd::prelude::*;

use crate::memory::router::{all_lines, category_name, collected, CategoryFile};
use crate::memory::store::{
    block_of, blocks_of, blocks_without, grouped, law_put, lemma_position, lines_at, lookup,
    position, record, removed, retrieved, tag_key, with_block, GroupView, BLOCK_END, UNTAGGED,
};
use crate::text::{
    contains_text, first_from, join, lemma_first_from, line_end, lines, occurs_at, opt_string,
    split, without_cr,
};
use crate::text_laws::{
    clean_before, free_of, is_word, law_join_of_split, law_lines_front, law_split_of_join,
    law_words_of_join, law_words_within_white, lemma_line_end, separable,
};

verus! {

/// The content of a file whose last block is ended.
pub open spec fn settled(content: Seq<char>) -> bool {
    blocks_of(content).last().len() == 0
}

/// The text holds no line feed.
pub open spec fn on_one_line(s: Seq<char>) -> bool {
    forall|i: int| 0 <= i < s.len() ==> s[i] != '\n'
}

/// A memory that makes up one block: it holds no empty line and does not end with a
/// line feed.
pub open spec fn one_block(block: Seq<char>) -> bool {
    &&& !contains_text(block, BLOCK_END@)
    &&& block.len() > 0 ==> block.last() != '\n'
}

/// A memory that its block gives back: its text is not empty, holds no empty line,
/// does not end with a line feed, and does not start like the tags, without tags,
/// or with a line feed, with tags. The tags stand on one line.
pub open spec fn storable(data: Seq<char>, tags: Seq<Seq<char>>) -> bool {
    &&& data.len() > 0
    &&& data.last() != '\n'
    &&& !contains_text(data, BLOCK_END@)
    &&& if tags.len() == 0 {
        data[0] != '#'
    } else {
        data[0] != '\n' && on_one_line(join(tags, " "@))
    }
}

proof fn lemma_block_end()
    ensures
        BLOCK_END@ == seq!['\n', '\n'],
{
    reveal_strlit("\n\n");
    assert(BLOCK_END@ =~= seq!['\n', '\n']);
}

proof fn lemma_clean(block: Seq<char>)
    requires
        one_block(block),
    ensures
        clean_before(block, BLOCK_END@),
{
    let p = BLOCK_END@;
    let s = block + p;
    let n = block.len() as int;
    lemma_block_end();
    assert(s.subrange(n, n + 2) =~= p);
    assert(occurs_at(s, p, n));
    lemma_first_from(s, p, 0);
    let i = first_from(s, p, 0)->0;
    assert(i <= n);
    if i < n {
        assert(s.subrange(i, i + 2)[0] == '\n');
        assert(s[i] == '\n');
        if i == n - 1 {
            assert(s[i] == block.last());
        } else {
            assert(block.subrange(i, i + 2) =~= s.subrange(i, i + 2));
            assert(occurs_at(block, p, i));
        }
    }
}

/// A memory whose tags stand on one line makes up one block, if its text does and,
/// where it has tags, is not empty and does not start with a line feed.
pub proof fn law_memories_make_up_one_block(data: Seq<char>, tags: Seq<Seq<char>>)
    requires
        one_block(data),
        tags.len() > 0 ==> data.len() > 0 && data[0] != '\n' && on_one_line(join(tags, " "@)),
    ensures
        one_block(block_of(data, tags)),
{
    let p = BLOCK_END@;
    let block = block_of(data, tags);
    if tags.len() > 0 {
        lemma_block_end();
        reveal_strlit("# ");
        reveal_strlit("\n");
        let all = join(tags, " "@);
        let head = "# "@ + all + "\n"@;
        assert(block =~= head + data);
        if contains_text(block, p) {
            let i = choose|i: int| occurs_at(block, p, i);
            assert(block.subrange(i, i + 2)[0] == '\n' && block.subrange(i, i + 2)[1] == '\n');
            assert(block[i] == '\n' && block[i + 1] == '\n');
            if i >= head.len() {
                let k = i - head.len();
                assert(data.subrange(k, k + 2) =~= block.subrange(i, i + 2));
                assert(occurs_at(data, p, k));
            } else if i == head.len() - 1 {
                assert(block[i + 1] == data[0]);
            } else if i >= 2 {
                assert(block[i] == all[i - 2]);
            }
            assert(false);
        }
        assert(block.last() == data.last());
    }
}

/// A text on one line makes up one block.
pub proof fn law_a_line_makes_up_one_block(data: Seq<char>)
    requires
        on_one_line(data),
    ensures
        one_block(data),
{
    lemma_block_end();
    if contains_text(data, BLOCK_END@) {
        let i = choose|i: int| occurs_at(data, BLOCK_END@, i);
        assert(data.subrange(i, i + 2)[0] == data[i]);
        assert(false);
    }
}

proof fn lemma_join_push(parts: Seq<Seq<char>>, part: Seq<char>, p: Seq<char>)
    ensures
        join(parts.push(part), p) == if parts.len() == 0 {
            part
        } else {
            join(parts, p) + p + part
        },
{
    assert(parts.push(part).drop_last() =~= parts);
}

/// Remembering a memory that makes up one block puts the block behind the others and
/// ends it, so that the file can take in the next memory.
pub proof fn law_remember_adds_one_block(
    content: Seq<char>,
    data: Seq<char>,
    tags: Seq<Seq<char>>,
)
    requires
        settled(content),
        one_block(block_of(data, tags)),
    ensures
        blocks_of(content + record(data, tags)) == blocks_of(content).drop_last().push(
            block_of(data, tags),
        ).push(Seq::empty()),
        settled(content + record(data, tags)),
{
    let p = BLOCK_END@;
    lemma_block_end();
    law_join_of_split(content, p);
    lemma_clean(block_of(data, tags));
    let old = blocks_of(content);
    let kept = old.drop_last();
    let block = block_of(data, tags);
    let parts = kept.push(block).push(Seq::empty());
    assert(old.last() =~= Seq::empty());
    assert(old =~= kept.push(Seq::empty()));
    lemma_join_push(kept, Seq::empty(), p);
    lemma_join_push(kept, block, p);
    lemma_join_push(kept.push(block), Seq::empty(), p);
    assert(join(parts, p) =~= content + record(data, tags));
    assert forall|k: int| 0 <= k < parts.len() - 1 implies #[trigger] clean_before(
        parts[k],
        p,
    ) by {
        if k < kept.len() {
            assert(parts[k] == old[k]);
            assert(clean_before(old[k], p));
        }
    }
    assert(free_of(Seq::<char>::empty(), p));
    assert(separable(parts, p));
    law_split_of_join(parts, p);
}

proof fn lemma_grouped_push(blocks: Seq<Seq<char>>, block: Seq<char>)
    ensures
        grouped(blocks.push(block)) == with_block(grouped(blocks), block),
{
    assert(blocks.push(block).drop_last() =~= blocks);
}

proof fn lemma_empty_block(groups: Seq<GroupView>)
    ensures
        with_block(groups, Seq::empty()) == groups,
{
    assert(lines(Seq::<char>::empty()) =~= Seq::empty());
}

/// A category whose file is empty has no memories, like one without a file, and
/// its last block is ended.
pub proof fn law_empty_file()
    ensures
        settled(Seq::empty()),
        retrieved(Some(Seq::empty())) == retrieved(None),
{
    let c = Seq::<char>::empty();
    let p = BLOCK_END@;
    lemma_block_end();
    lemma_first_from(c, p, 0);
    assert(first_from(c, p, 0) is None);
    assert(c.subrange(0, 0) =~= c);
    assert(blocks_of(c) =~= Seq::empty().push(c));
    lemma_grouped_push(Seq::empty(), c);
    lemma_empty_block(grouped(Seq::empty()));
}

/// The lines of the block of a storable memory are the lines of its text, behind a
/// line with the tags if it has any.
proof fn lemma_block_lines(data: Seq<char>, tags: Seq<Seq<char>>)
    requires
        storable(data, tags),
    ensures
        ({
            let all = lines(block_of(data, tags));
            if tags.len() == 0 {
                all == lines(data)
            } else {
                &&& all.len() > 0
                &&& all[0].len() > 0
                &&& all[0][0] == '#'
                &&& tag_key(all[0].skip(1)) == tag_key(join(tags, " "@))
                &&& all.skip(1) == lines(data)
            }
        }),
{
    if tags.len() > 0 {
        reveal_strlit("# ");
        reveal_strlit("\n");
        let tag_text = join(tags, " "@);
        let head = "# "@ + tag_text;
        assert(block_of(data, tags) =~= head + seq!['\n'] + data);
        law_lines_front(head, data);
        let first = without_cr(head);
        let all = lines(block_of(data, tags));
        assert(all =~= seq![first] + lines(data));
        assert(all[0] == first);
        assert(all.skip(1) =~= lines(data));
        assert(head[0] == '#' && head[1] == ' ');
        if tag_text.len() > 0 && tag_text.last() == '\r' {
            assert(first =~= head.drop_last());
            let rest = tag_text.drop_last();
            assert(first.skip(1) =~= seq![' '] + rest);
            law_words_within_white(rest, ' ');
            law_words_within_white(rest, '\r');
            assert(rest.push('\r') =~= tag_text);
        } else {
            assert(head.last() != '\r') by {
                if tag_text.len() > 0 {
                    assert(head.last() == tag_text.last());
                }
            }
            assert(first == head);
            assert(first.skip(1) =~= seq![' '] + tag_text);
            law_words_within_white(tag_text, ' ');
        }
    }
}

/// The key that a memory is found under: its tags, or the key of those without tags.
pub open spec fn key_of(tags: Seq<Seq<char>>) -> Seq<char> {
    if tags.len() == 0 {
        UNTAGGED@
    } else {
        tag_key(join(tags, " "@))
    }
}

/// Reading gives back what was remembered, behind all that was remembered before
/// under the same tags, or without tags. What is found under other keys stays as it
/// was, and the file can take in the next memory.
pub proof fn law_retrieve_gives_back_what_was_remembered(
    content: Seq<char>,
    data: Seq<char>,
    tags: Seq<Seq<char>>,
)
    requires
        settled(content),
        storable(data, tags),
    ensures
        ({
            let before = retrieved(Some(content));
            let after = retrieved(Some(content + record(data, tags)));
            let key = key_of(tags);
            &&& settled(content + record(data, tags))
            &&& lookup(after, key) == Some(lines_at(before, key) + lines(data))
            &&& forall|k: Seq<char>| k != key ==> #[trigger] lookup(after, k) == lookup(before, k)
        }),
{
    law_memories_make_up_one_block(data, tags);
    law_remember_adds_one_block(content, data, tags);
    lemma_block_lines(data, tags);
    let p = BLOCK_END@;
    lemma_block_end();
    law_join_of_split(content, p);
    let kept = blocks_of(content).drop_last();
    let block = block_of(data, tags);
    assert(blocks_of(content).last() =~= Seq::empty());
    assert(blocks_of(content) =~= kept.push(Seq::empty()));
    lemma_grouped_push(kept, Seq::empty());
    lemma_grouped_push(kept, block);
    lemma_grouped_push(kept.push(block), Seq::empty());
    lemma_empty_block(grouped(kept));
    lemma_empty_block(grouped(kept.push(block)));
    let before = retrieved(Some(content));
    let after = retrieved(Some(content + record(data, tags)));
    assert(after == with_block(before, block));
    if tags.len() == 0 {
        lemma_lines_of_text(data);
    }
    law_put(before, key_of(tags), lines_at(before, key_of(tags)) + lines(data));
}

/// A memory: its text and its tags.
pub struct Memory {
    pub data: Seq<char>,
    pub tags: Seq<Seq<char>>,
}

/// The file that remembering some memories, one after the other, makes of none.
pub open spec fn file_of(memories: Seq<Memory>) -> Seq<char>
    decreases memories.len(),
{
    if memories.len() == 0 {
        Seq::empty()
    } else {
        file_of(memories.drop_last()) + record(memories.last().data, memories.last().tags)
    }
}

/// The lines of all memories with the given key, oldest first.
pub open spec fn lines_under(memories: Seq<Memory>, key: Seq<char>) -> Seq<Seq<char>>
    decreases memories.len(),
{
    if memories.len() == 0 {
        Seq::empty()
    } else if key_of(memories.last().tags) == key {
        lines_under(memories.drop_last(), key) + lines(memories.last().data)
    } else {
        lines_under(memories.drop_last(), key)
    }
}

/// A file that is made of memories of one block each can always take in the next.
pub proof fn law_files_stay_settled(memories: Seq<Memory>)
    requires
        forall|i: int|
            0 <= i < memories.len() ==> one_block(
                block_of((#[trigger] memories[i]).data, memories[i].tags),
            ),
    ensures
        settled(file_of(memories)),
    decreases memories.len(),
{
    if memories.len() == 0 {
        law_empty_file();
    } else {
        let init = memories.drop_last();
        assert forall|i: int| 0 <= i < init.len() implies one_block(
            block_of((#[trigger] init[i]).data, init[i].tags),
        ) by {
            assert(init[i] == memories[i]);
        }
        law_files_stay_settled(init);
        assert(memories[memories.len() - 1] == memories.last());
        law_remember_adds_one_block(
            file_of(init),
            memories.last().data,
            memories.last().tags,
        );
    }
}

/// All memories of a category are retrieved: under each key stand the lines of all
/// memories with that key, in the order in which they were remembered, and nothing
/// else.
pub proof fn law_retrieve_gives_back_all_memories(memories: Seq<Memory>, key: Seq<char>)
    requires
        forall|i: int|
            0 <= i < memories.len() ==> storable((#[trigger] memories[i]).data, memories[i].tags),
    ensures
        settled(file_of(memories)),
        lines_at(retrieved(Some(file_of(memories))), key) == lines_under(memories, key),
        lookup(retrieved(Some(file_of(memories))), key) is Some <==> exists|i: int|
            0 <= i < memories.len() && key_of((#[trigger] memories[i]).tags) == key,
    decreases memories.len(),
{
    if memories.len() == 0 {
        law_empty_file();
    } else {
        let init = memories.drop_last();
        let last = memories.last();
        assert forall|i: int| 0 <= i < init.len() implies storable(
            (#[trigger] init[i]).data,
            init[i].tags,
        ) by {
            assert(init[i] == memories[i]);
        }
        assert(memories[memories.len() - 1] == last);
        law_retrieve_gives_back_all_memories(init, key);
        law_retrieve_gives_back_what_was_remembered(file_of(init), last.data, last.tags);
        let after = retrieved(Some(file_of(memories)));
        if key_of(last.tags) == key {
            assert(lookup(after, key) is Some);
        } else {
            assert(lookup(after, key) == lookup(retrieved(Some(file_of(init))), key));
            if lookup(after, key) is Some {
                let i = choose|i: int|
                    0 <= i < init.len() && key_of((#[trigger] init[i]).tags) == key;
                assert(memories[i] == init[i]);
            }
            if exists|i: int|
                0 <= i < memories.len() && key_of((#[trigger] memories[i]).tags) == key {
                let i = choose|i: int|
                    0 <= i < memories.len() && key_of((#[trigger] memories[i]).tags) == key;
                assert(init[i] == memories[i]);
            }
        }
    }
}

proof fn lemma_lines_of_text(data: Seq<char>)
    requires
        data.len() > 0,
        data[0] != '#',
    ensures
        lines(data).len() > 0,
        lines(data)[0].len() > 0 ==> lines(data)[0][0] != '#',
{
    let e = line_end(data, 0);
    lemma_line_end(data, 0);
    if e < data.len() {
        let line = data.subrange(0, e);
        assert(lines(data)[0] == without_cr(line));
    } else {
        assert(lines(data)[0] == data.subrange(0, data.len() as int));
    }
}

/// Tags that are words are found again by the tags with a space between neighbours.
pub proof fn law_key_of_words(tags: Seq<Seq<char>>)
    requires
        forall|i: int| 0 <= i < tags.len() ==> is_word(#[trigger] tags[i]),
    ensures
        tag_key(join(tags, " "@)) == join(tags, " "@),
{
    reveal_strlit(" ");
    assert(" "@ =~= seq![' ']);
    law_words_of_join(tags);
}

proof fn lemma_without_all(blocks: Seq<Seq<char>>, text: Seq<char>, p: Seq<char>)
    requires
        forall|k: int| 0 <= k < blocks.len() ==> #[trigger] clean_before(blocks[k], p),
    ensures
        forall|k: int|
            0 <= k < blocks_without(blocks, text).len() ==> #[trigger] clean_before(
                blocks_without(blocks, text)[k],
                p,
            ),
    decreases blocks.len(),
{
    if blocks.len() > 0 {
        let init = blocks.drop_last();
        assert forall|k: int| 0 <= k < init.len() implies #[trigger] clean_before(init[k], p) by {
            assert(clean_before(blocks[k], p));
        }
        lemma_without_all(init, text, p);
        assert(clean_before(blocks[blocks.len() - 1], p));
        let before = blocks_without(init, text);
        let after = blocks_without(blocks, text);
        assert forall|k: int| 0 <= k < after.len() implies #[trigger] clean_before(
            after[k],
            p,
        ) by {
            if k < before.len() {
                assert(after[k] == before[k]);
            }
        }
    }
}

/// Removing a memory from a file whose last block is ended leaves the blocks that
/// do not hold its text, in their order, and ends the last block again.
pub proof fn law_remove_leaves_the_other_blocks(content: Seq<char>, text: Seq<char>)
    requires
        settled(content),
        text.len() > 0,
    ensures
        blocks_of(removed(content, text)) == blocks_without(blocks_of(content), text),
        settled(removed(content, text)),
{
    let p = BLOCK_END@;
    lemma_block_end();
    law_join_of_split(content, p);
    let all = blocks_of(content);
    let kept = blocks_without(all, text);
    let init = all.drop_last();
    assert(!contains_text(all.last(), text)) by {
        assert forall|i: int| !occurs_at(all.last(), text, i) by {}
    }
    assert(kept =~= blocks_without(init, text).push(all.last()));
    assert forall|k: int| 0 <= k < init.len() implies #[trigger] clean_before(init[k], p) by {
        assert(clean_before(all[k], p));
    }
    lemma_without_all(init, text, p);
    assert forall|k: int| 0 <= k < kept.len() - 1 implies #[trigger] clean_before(kept[k], p) by {
        assert(kept[k] == blocks_without(init, text)[k]);
    }
    assert(separable(kept, p));
    law_split_of_join(kept, p);
}

/// No block that is left holds the text.
pub proof fn law_no_block_left_holds_the_text(blocks: Seq<Seq<char>>, text: Seq<char>)
    ensures
        forall|k: int|
            0 <= k < blocks_without(blocks, text).len() ==> !contains_text(
                #[trigger] blocks_without(blocks, text)[k],
                text,
            ),
    decreases blocks.len(),
{
    if blocks.len() > 0 {
        law_no_block_left_holds_the_text(blocks.drop_last(), text);
        let before = blocks_without(blocks.drop_last(), text);
        let after = blocks_without(blocks, text);
        assert forall|k: int| 0 <= k < after.len() implies !contains_text(
            #[trigger] after[k],
            text,
        ) by {
            if k < before.len() {
                assert(after[k] == before[k]);
            }
        }
    }
}

proof fn lemma_without_none(blocks: Seq<Seq<char>>, text: Seq<char>)
    requires
        forall|k: int| 0 <= k < blocks.len() ==> !contains_text(#[trigger] blocks[k], text),
    ensures
        blocks_without(blocks, text) == blocks,
    decreases blocks.len(),
{
    if blocks.len() > 0 {
        lemma_without_none(blocks.drop_last(), text);
        assert(blocks.drop_last().push(blocks.last()) =~= blocks);
    }
}

/// A text that no block holds is removed without a change.
pub proof fn law_remove_of_nothing(content: Seq<char>, text: Seq<char>)
    requires
        forall|k: int|
            0 <= k < blocks_of(content).len() ==> !contains_text(
                #[trigger] blocks_of(content)[k],
                text,
            ),
    ensures
        removed(content, text) == content,
{
    lemma_block_end();
    law_join_of_split(content, BLOCK_END@);
    lemma_without_none(blocks_of(content), text);
}

/// Removing a memory right after it was remembered, by a text that no other block
/// holds, gives back the file; removing it once more changes nothing.
pub proof fn law_remove_undoes_remember(
    content: Seq<char>,
    data: Seq<char>,
    tags: Seq<Seq<char>>,
    text: Seq<char>,
)
    requires
        settled(content),
        one_block(block_of(data, tags)),
        text.len() > 0,
        contains_text(block_of(data, tags), text),
        forall|k: int|
            0 <= k < blocks_of(content).len() ==> !contains_text(
                #[trigger] blocks_of(content)[k],
                text,
            ),
    ensures
        removed(content + record(data, tags), text) == content,
        removed(content, text) == content,
{
    law_remember_adds_one_block(content, data, tags);
    law_remove_of_nothing(content, text);
    let old = blocks_of(content);
    let kept = old.drop_last();
    let block = block_of(data, tags);
    let empty = Seq::<char>::empty();
    let all = kept.push(block).push(empty);
    lemma_block_end();
    law_join_of_split(content, BLOCK_END@);
    assert(old.last() =~= empty);
    assert(old =~= kept.push(empty));
    assert forall|k: int| 0 <= k < kept.len() implies !contains_text(
        #[trigger] kept[k],
        text,
    ) by {
        assert(kept[k] == old[k]);
    }
    lemma_without_none(kept, text);
    assert(all.drop_last() =~= kept.push(block));
    assert(kept.push(block).drop_last() =~= kept);
    assert(!contains_text(empty, text)) by {
        assert forall|i: int| !occurs_at(empty, text, i) by {}
    }
    assert(blocks_without(kept.push(block), text) == kept);
    assert(blocks_without(all, text) == old);
}

/// A memory is in its block, so that it can be removed by its text.
pub proof fn law_block_holds_the_text(data: Seq<char>, tags: Seq<Seq<char>>)
    ensures
        contains_text(block_of(data, tags), data),
{
    let block = block_of(data, tags);
    let i = block.len() - data.len();
    assert(block.subrange(i, i + data.len()) =~= data);
    assert(occurs_at(block, data, i));
}

/// A memory without line feeds, whose tags hold none either and which is not made of
/// tags alone.
pub open spec fn plain(m: Memory) -> bool {
    &&& on_one_line(m.data)
    &&& forall|i: int| 0 <= i < m.tags.len() ==> on_one_line(#[trigger] m.tags[i])
    &&& m.tags.len() > 0 ==> m.data.len() > 0
}

proof fn lemma_join_on_one_line(parts: Seq<Seq<char>>)
    requires
        forall|i: int| 0 <= i < parts.len() ==> on_one_line(#[trigger] parts[i]),
    ensures
        on_one_line(join(parts, " "@)),
    decreases parts.len(),
{
    reveal_strlit(" ");
    if parts.len() == 1 {
        assert(on_one_line(parts[0]));
    } else if parts.len() > 1 {
        let init = parts.drop_last();
        assert forall|i: int| 0 <= i < init.len() implies on_one_line(#[trigger] init[i]) by {
            assert(on_one_line(parts[i]));
        }
        lemma_join_on_one_line(init);
        assert(on_one_line(parts[parts.len() - 1]));
    }
}

proof fn lemma_plain_is_one_block(m: Memory)
    requires
        plain(m),
    ensures
        one_block(block_of(m.data, m.tags)),
{
    law_a_line_makes_up_one_block(m.data);
    lemma_join_on_one_line(m.tags);
    law_memories_make_up_one_block(m.data, m.tags);
}

/// In a file of memories without line feeds, forgetting the last memory by its text
/// gives back the file before it, where no other block holds the text. Forgetting it
/// once more changes nothing.
#[verifier::spinoff_prover]
pub proof fn law_forgetting_undoes_remembering(memories: Seq<Memory>, m: Memory)
    requires
        forall|i: int| 0 <= i < memories.len() ==> plain(#[trigger] memories[i]),
        plain(m),
        m.data.len() > 0,
        forall|k: int|
            0 <= k < blocks_of(file_of(memories)).len() ==> !contains_text(
                #[trigger] blocks_of(file_of(memories))[k],
                m.data,
            ),
    ensures
        removed(file_of(memories.push(m)), m.data) == file_of(memories),
        removed(file_of(memories), m.data) == file_of(memories),
{
    assert forall|i: int| 0 <= i < memories.len() implies one_block(
        block_of((#[trigger] memories[i]).data, memories[i].tags),
    ) by {
        lemma_plain_is_one_block(memories[i]);
    }
    law_files_stay_settled(memories);
    lemma_plain_is_one_block(m);
    law_block_holds_the_text(m.data, m.tags);
    assert(memories.push(m).drop_last() =~= memories);
    law_remove_undoes_remember(file_of(memories), m.data, m.tags, m.data);
}

/// The file of a category gives the category back, where the category does not
/// hold the ending of the file's name itself.
pub proof fn law_file_name_gives_the_category(category: Seq<char>)
    requires
        !contains_text(category, ".txt"@),
    ensures
        category_name(category + ".txt"@) == category,
{
    let p = ".txt"@;
    reveal_strlit(".txt");
    let s = category + p;
    let n = category.len() as int;
    let empty = Seq::<char>::empty();
    assert(s.subrange(n, n + 4) =~= p);
    assert(occurs_at(s, p, n));
    lemma_first_from(s, p, 0);
    let i = first_from(s, p, 0)->0;
    if i < n {
        if i + 4 <= n {
            assert(category.subrange(i, i + 4) =~= s.subrange(i, i + 4));
            assert(occurs_at(category, p, i));
        } else {
            let k = n - i;
            assert(s.subrange(i, i + 4)[k] == s[n]);
            assert(s[n] == p[0]);
            assert(p[k] != p[0]);
        }
        assert(false);
    }
    assert(clean_before(category, p));
    let parts = seq![category, empty];
    assert(free_of(empty, p)) by {
        assert forall|j: int| !occurs_at(empty, p, j) by {}
    }
    assert(separable(parts, p));
    assert(parts.drop_last() =~= seq![category]);
    assert(join(seq![category], p) == category);
    assert(join(parts, p) =~= s);
    law_split_of_join(parts, p);
    assert(join(seq![category], empty) == category);
    assert(join(parts, empty) =~= category);
}

/// Among the memories of all categories, those of a category are found under its
/// name; of several files that give the same category the last counts.
pub proof fn law_each_category_is_found(files: Seq<CategoryFile>, i: int)
    requires
        0 <= i < files.len(),
        forall|j: int|
            i < j < files.len() ==> category_name((#[trigger] files[j]).file_name@)
                != category_name(files[i].file_name@),
    ensures
        lookup(collected(files), category_name(files[i].file_name@)) == Some(
            all_lines(retrieved(opt_string(files[i].content))),
        ),
    decreases files.len(),
{
    let init = files.drop_last();
    let last = files.last();
    law_put(
        collected(init),
        category_name(last.file_name@),
        all_lines(retrieved(opt_string(last.content))),
    );
    if i < files.len() - 1 {
        assert(files[files.len() - 1] == last);
        assert(init[i] == files[i]);
        assert forall|j: int| i < j < init.len() implies category_name(
            (#[trigger] init[j]).file_name@,
        ) != category_name(init[i].file_name@) by {
            assert(init[j] == files[j]);
        }
        law_each_category_is_found(init, i);
    }
}

proof fn lemma_lines_of_group(groups: Seq<GroupView>, g: int)
    requires
        0 <= g < groups.len(),
    ensures
        exists|i: int|
            0 <= i <= all_lines(groups).len() - groups[g].lines.len() && #[trigger] all_lines(
                groups,
            ).subrange(i, i + groups[g].lines.len()) == groups[g].lines,
    decreases groups.len(),
{
    let all = all_lines(groups);
    let before = all_lines(groups.drop_last());
    let lines = groups[g].lines;
    if g == groups.len() - 1 {
        let i = before.len() as int;
        assert(all.subrange(i, i + lines.len()) =~= lines);
    } else {
        lemma_lines_of_group(groups.drop_last(), g);
        let i = choose|i: int|
            0 <= i <= before.len() - lines.len() && #[trigger] before.subrange(i, i + lines.len())
                == lines;
        assert(all.subrange(i, i + lines.len()) =~= before.subrange(i, i + lines.len()));
    }
}

/// The lines of a category hold the lines of each of its groups, side by side and
/// in order.
pub proof fn law_all_lines_hold_each_group(
    groups: Seq<GroupView>,
    key: Seq<char>,
    lines: Seq<Seq<char>>,
)
    requires
        lookup(groups, key) == Some(lines),
    ensures
        exists|i: int|
            0 <= i <= all_lines(groups).len() - lines.len() && #[trigger] all_lines(
                groups,
            ).subrange(i, i + lines.len()) == lines,
{
    lemma_position(groups, key);
    lemma_lines_of_group(groups, position(groups, key));
}

/// Of blocks put one behind the other, those without a text are those of the first and
/// then those of the second. A block by itself is kept exactly if it does not hold the
/// text.
pub proof fn law_blocks_are_kept_one_by_one(
    a: Seq<Seq<char>>,
    b: Seq<Seq<char>>,
    block: Seq<char>,
    text: Seq<char>,
)
    ensures
        blocks_without(a + b, text) == blocks_without(a, text) + blocks_without(b, text),
        blocks_without(seq![block], text) == if contains_text(block, text) {
            Seq::empty()
        } else {
            seq![block]
        },
    decreases b.len(),
{
    assert(seq![block].drop_last() =~= Seq::<Seq<char>>::empty());
    assert(blocks_without(Seq::empty(), text) =~= Seq::<Seq<char>>::empty());
    assert(Seq::empty().push(block) =~= seq![block]);
    if b.len() == 0 {
        assert(a + b =~= a);
        assert(blocks_without(a, text) + blocks_without(b, text) =~= blocks_without(a, text));
    } else {
        assert((a + b).drop_last() =~= a + b.drop_last());
        law_blocks_are_kept_one_by_one(a, b.drop_last(), block, text);
        assert(blocks_without(a + b, text) =~= blocks_without(a, text) + blocks_without(b, text));
    }
}

proof fn lemma_clean_is_free(part: Seq<char>, p: Seq<char>)
    requires
        clean_before(part, p),
        p.len() > 0,
    ensures
        free_of(part, p),
{
    let s = part + p;
    lemma_first_from(s, p, 0);
    assert forall|i: int| !occurs_at(part, p, i) by {
        if occurs_at(part, p, i) {
            assert(s.subrange(i, i + p.len()) =~= part.subrange(i, i + p.len()));
            assert(occurs_at(s, p, i));
        }
    }
}

/// Whatever stands in a file, removing a text leaves the blocks that do not hold it, as
/// they were, and no others. Where each block holds it, nothing is left.
pub proof fn law_remove_takes_the_blocks_that_hold_the_text(content: Seq<char>, text: Seq<char>)
    ensures
        blocks_without(blocks_of(content), text).len() > 0 ==> blocks_of(removed(content, text))
            == blocks_without(blocks_of(content), text),
        blocks_without(blocks_of(content), text).len() == 0 ==> removed(content, text).len() == 0,
        text.len() > 0 ==> forall|k: int|
            0 <= k < blocks_of(removed(content, text)).len() ==> !contains_text(
                #[trigger] blocks_of(removed(content, text))[k],
                text,
            ),
        blocks_of(content) == split(content, seq!['\n', '\n']),
{
    let p = BLOCK_END@;
    lemma_block_end();
    law_join_of_split(content, p);
    let all = blocks_of(content);
    let kept = blocks_without(all, text);
    let init = all.drop_last();
    let few = blocks_without(init, text);
    assert forall|k: int| 0 <= k < init.len() implies #[trigger] clean_before(init[k], p) by {
        assert(clean_before(all[k], p));
    }
    lemma_without_all(init, text, p);
    law_no_block_left_holds_the_text(all, text);
    if kept.len() > 0 {
        assert forall|k: int| 0 <= k < kept.len() - 1 implies #[trigger] clean_before(
            kept[k],
            p,
        ) by {
            assert(kept[k] == few[k]);
        }
        if contains_text(all.last(), text) {
            assert(kept == few);
            assert(clean_before(few[few.len() - 1], p));
            lemma_clean_is_free(kept.last(), p);
        }
        assert(separable(kept, p));
        law_split_of_join(kept, p);
    } else {
        law_empty_file();
        let after = removed(content, text);
        assert(after =~= Seq::empty());
        let blocks = blocks_of(after);
        law_join_of_split(after, p);
        lemma_first_from(after, p, 0);
        assert(first_from(after, p, 0) is None);
        assert(blocks.len() == 1 && blocks[0].len() == 0);
        if text.len() > 0 {
            assert forall|i: int| !occurs_at(blocks[0], text, i) by {}
        }
    }
}

/// A block that does not hold the text is still there after it is removed.
pub proof fn law_remove_keeps_each_other_block(content: Seq<char>, text: Seq<char>, k: int)
    requires
        0 <= k < blocks_of(content).len(),
        !contains_text(blocks_of(content)[k], text),
    ensures
        exists|j: int|
            0 <= j < blocks_of(removed(content, text)).len() && #[trigger] blocks_of(
                removed(content, text),
            )[j] == blocks_of(content)[k],
{
    let all = blocks_of(content);
    let kept = blocks_without(all, text);
    law_remove_takes_the_blocks_that_hold_the_text(content, text);
    let front = all.take(k);
    let one = seq![all[k]];
    let rest = all.skip(k + 1);
    assert(all =~= front + one + rest);
    law_blocks_are_kept_one_by_one(front + one, rest, all[k], text);
    law_blocks_are_kept_one_by_one(front, one, all[k], text);
    let j = blocks_without(front, text).len() as int;
    assert(kept[j] == all[k]);
}

} // verus!
