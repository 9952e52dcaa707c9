//! How memories stand in the file of a category, and how they are read back.
//!
//! A file is a row of blocks with an empty line behind each. The first line of a
//! block may name its tags behind a `#`.

use vstd::prelude::*;

use crate::text::{
    chars_of, contains, contains_text, join, join_strings, join_strs, lines, lines_of, opt_text,
    same_text, split, split_on, str_texts, texts, words, words_from, words_of,
};
use crate::text_laws::lemma_words_shift;

verus! {

/// The lines of a group of memories, under the key that they are found by.
#[derive(Debug)]
pub struct Group {
    pub key: String,
    pub lines: Vec<String>,
}

/// The view of a [`Group`].
pub struct GroupView {
    pub key: Seq<char>,
    pub lines: Seq<Seq<char>>,
}

impl View for Group {
    type V = GroupView;

    open spec fn view(&self) -> GroupView {
        GroupView { key: self.key@, lines: texts(self.lines@) }
    }
}

/// Groups of memories, in the order in which their keys were first met.
#[derive(Debug)]
pub struct Memories {
    groups: Vec<Group>,
}

impl View for Memories {
    type V = Seq<GroupView>;

    closed spec fn view(&self) -> Seq<GroupView> {
        self.groups@.map_values(|g: Group| g@)
    }
}

/// No two groups have the same key.
pub open spec fn distinct_keys(groups: Seq<GroupView>) -> bool {
    forall|i: int, j: int|
        0 <= i < j < groups.len() ==> (#[trigger] groups[i]).key != (#[trigger] groups[j]).key
}

/// The position of the group with the given key, or the number of groups.
pub open spec fn position(groups: Seq<GroupView>, key: Seq<char>) -> int
    decreases groups.len(),
{
    if groups.len() == 0 {
        0
    } else if groups[0].key == key {
        0
    } else {
        1 + position(groups.drop_first(), key)
    }
}

/// The lines of the group with the given key.
pub open spec fn lookup(groups: Seq<GroupView>, key: Seq<char>) -> Option<Seq<Seq<char>>> {
    let i = position(groups, key);
    if i < groups.len() {
        Some(groups[i].lines)
    } else {
        None
    }
}

/// The lines under the given key, none where there is no such group.
pub open spec fn lines_at(groups: Seq<GroupView>, key: Seq<char>) -> Seq<Seq<char>> {
    match lookup(groups, key) {
        Some(l) => l,
        None => Seq::empty(),
    }
}

/// The groups with the given lines behind those under the given key.
pub open spec fn extended(groups: Seq<GroupView>, key: Seq<char>, lines: Seq<Seq<char>>) -> Seq<
    GroupView,
> {
    put(groups, key, lines_at(groups, key) + lines)
}

/// The groups with the given lines under the given key, in the place of those that
/// stood there.
pub open spec fn put(groups: Seq<GroupView>, key: Seq<char>, lines: Seq<Seq<char>>) -> Seq<
    GroupView,
> {
    let i = position(groups, key);
    let group = GroupView { key, lines };
    if i < groups.len() {
        groups.update(i, group)
    } else {
        groups.push(group)
    }
}

pub proof fn lemma_position(groups: Seq<GroupView>, key: Seq<char>)
    ensures
        0 <= position(groups, key) <= groups.len(),
        position(groups, key) < groups.len() ==> groups[position(groups, key)].key == key,
        forall|j: int| 0 <= j < position(groups, key) ==> (#[trigger] groups[j]).key != key,
    decreases groups.len(),
{
    if groups.len() > 0 && groups[0].key != key {
        let rest = groups.drop_first();
        lemma_position(rest, key);
        assert forall|j: int| 0 <= j < position(groups, key) implies (#[trigger] groups[j]).key
            != key by {
            if j > 0 {
                assert(rest[j - 1] == groups[j]);
            }
        }
    }
}

proof fn lemma_position_is(groups: Seq<GroupView>, key: Seq<char>, i: int)
    requires
        0 <= i <= groups.len(),
        i < groups.len() ==> groups[i].key == key,
        forall|j: int| 0 <= j < i ==> (#[trigger] groups[j]).key != key,
    ensures
        position(groups, key) == i,
{
    lemma_position(groups, key);
}

/// Putting lines under a key lets them be found there, changes what is found
/// under no other key, and keeps the keys distinct.
pub proof fn law_put(groups: Seq<GroupView>, key: Seq<char>, lines: Seq<Seq<char>>)
    ensures
        lookup(put(groups, key, lines), key) == Some(lines),
        forall|k: Seq<char>|
            k != key ==> #[trigger] lookup(put(groups, key, lines), k) == lookup(groups, k),
        distinct_keys(groups) ==> distinct_keys(put(groups, key, lines)),
{
    let after = put(groups, key, lines);
    let i = position(groups, key);
    lemma_position(groups, key);
    lemma_position_is(after, key, i);
    assert forall|k: Seq<char>| k != key implies #[trigger] lookup(after, k) == lookup(
        groups,
        k,
    ) by {
        let p = position(groups, k);
        lemma_position(groups, k);
        if p < groups.len() {
            lemma_position_is(after, k, p);
        } else {
            lemma_position_is(after, k, after.len() as int);
        }
    }
    if distinct_keys(groups) {
        assert forall|a: int, b: int| 0 <= a < b < after.len() implies (#[trigger] after[a]).key
            != (#[trigger] after[b]).key by {
            if i < groups.len() {
                assert(after[a].key == groups[a].key && after[b].key == groups[b].key);
            }
        }
    }
}

/// The key under which the memories without tags stand.
pub const UNTAGGED: &'static str = "untagged";

/// What stands between two blocks.
pub const BLOCK_END: &'static str = "\n\n";

/// The key of the tags that a line names behind its `#`: the words, a space
/// between neighbours.
pub open spec fn tag_key(tag_text: Seq<char>) -> Seq<char> {
    join(words(tag_text), " "@)
}

/// The groups with one more block. Its lines join those under the same tags, or
/// those without tags if it has none.
pub open spec fn with_block(groups: Seq<GroupView>, block: Seq<char>) -> Seq<GroupView> {
    let all = lines(block);
    if all.len() == 0 {
        groups
    } else if all[0].len() > 0 && all[0][0] == '#' {
        extended(groups, tag_key(all[0].skip(1)), all.skip(1))
    } else {
        extended(groups, UNTAGGED@, all)
    }
}

/// The groups that the blocks make up.
pub open spec fn grouped(blocks: Seq<Seq<char>>) -> Seq<GroupView>
    decreases blocks.len(),
{
    if blocks.len() == 0 {
        Seq::empty()
    } else {
        with_block(grouped(blocks.drop_last()), blocks.last())
    }
}

/// The blocks of a file.
pub open spec fn blocks_of(content: Seq<char>) -> Seq<Seq<char>> {
    split(content, BLOCK_END@)
}

/// The memories of a category, given the content of its file, if there is one.
pub open spec fn retrieved(content: Option<Seq<char>>) -> Seq<GroupView> {
    match content {
        Some(c) => grouped(blocks_of(c)),
        None => Seq::empty(),
    }
}

impl Memories {
    /// No memories.
    pub fn new() -> (m: Memories)
        ensures
            m@ == Seq::<GroupView>::empty(),
    {
        let m = Memories { groups: Vec::new() };
        proof {
            assert(m@ =~= Seq::<GroupView>::empty());
        }
        m
    }

    /// The number of groups.
    pub fn len(&self) -> (n: usize)
        ensures
            n == self@.len(),
    {
        self.groups.len()
    }

    /// The key and the lines of a group.
    pub fn group(&self, i: usize) -> (g: &Group)
        requires
            i < self@.len(),
        ensures
            g@ == self@[i as int],
    {
        &self.groups[i]
    }

    /// The position of the group with the given key, or the number of groups.
    fn find(&self, key: &str) -> (i: usize)
        ensures
            i == position(self@, key@),
    {
        let mut i: usize = 0;
        while i < self.groups.len()
            invariant
                i <= self.groups@.len(),
                forall|j: int| 0 <= j < i ==> (#[trigger] self@[j]).key != key@,
            decreases self.groups@.len() - i,
        {
            proof {
                assert(self@[i as int] == self.groups@[i as int]@);
            }
            if same_text(self.groups[i].key.as_str(), key) {
                proof {
                    lemma_position_is(self@, key@, i as int);
                }
                return i;
            }
            i += 1;
        }
        proof {
            lemma_position_is(self@, key@, i as int);
        }
        i
    }

    /// The lines of the group with the given key.
    pub fn get(&self, key: &str) -> (r: Option<&Vec<String>>)
        ensures
            match r {
                Some(l) => lookup(self@, key@) == Some(texts(l@)),
                None => lookup(self@, key@) is None,
            },
    {
        let i = self.find(key);
        if i < self.groups.len() {
            proof {
                assert(self@[i as int] == self.groups@[i as int]@);
            }
            Some(&self.groups[i].lines)
        } else {
            None
        }
    }

    /// Puts lines under a key, in the place of those that stood there.
    pub fn insert(&mut self, key: String, lines: Vec<String>)
        ensures
            final(self)@ == put(old(self)@, key@, texts(lines@)),
    {
        let i = self.find(key.as_str());
        let ghost before = self@;
        if i < self.groups.len() {
            self.groups.set(i, Group { key, lines });
        } else {
            self.groups.push(Group { key, lines });
        }
        proof {
            assert(self@ =~= put(before, key@, texts(lines@)));
        }
    }

    /// Adds lines to those of the group with the given key, which is opened if
    /// there is none.
    pub fn extend(&mut self, key: &str, lines: Vec<String>)
        ensures
            final(self)@ == extended(old(self)@, key@, texts(lines@)),
    {
        let i = self.find(key);
        let ghost before = self@;
        let ghost new_lines = texts(lines@);
        let mut lines = lines;
        if i < self.groups.len() {
            let mut group = self.groups.remove(i);
            let ghost old_lines = group.lines@;
            group.lines.append(&mut lines);
            proof {
                assert(texts(group.lines@) =~= texts(old_lines) + new_lines);
            }
            self.groups.insert(i, group);
            proof {
                lemma_position(before, key@);
                assert(before[i as int].lines == texts(old_lines));
                assert(self@ =~= put(before, key@, before[i as int].lines + new_lines));
            }
        } else {
            self.groups.push(Group { key: key.to_owned(), lines });
            proof {
                assert(Seq::<Seq<char>>::empty() + new_lines =~= new_lines);
                assert(self@ =~= put(before, key@, new_lines));
            }
        }
    }

    /// Takes in a block of a file.
    fn add_block(&mut self, block: &str)
        ensures
            final(self)@ == with_block(old(self)@, block@),
    {
        let all = lines_of(block);
        let ghost view = lines(block@);
        if all.len() == 0 {
            return;
        }
        let first = chars_of(all[0].as_str());
        if first.len() > 0 && first[0] == '#' {
            let tags = words_of(first.as_slice(), 1);
            let key = join_strings(tags.as_slice(), " ");
            let mut rest: Vec<String> = Vec::new();
            let mut k: usize = 1;
            while k < all.len()
                invariant
                    1 <= k <= all@.len(),
                    texts(all@) == view,
                    texts(rest@) == view.subrange(1, k as int),
                decreases all@.len() - k,
            {
                let ghost before = rest@;
                rest.push(all[k].clone());
                proof {
                    assert(texts(rest@) =~= texts(before).push(view[k as int]));
                    assert(texts(rest@) =~= view.subrange(1, k + 1));
                }
                k += 1;
            }
            proof {
                lemma_words_skip(first@, 1);
                assert(texts(rest@) =~= view.skip(1));
            }
            self.extend(key.as_str(), rest);
        } else {
            self.extend(UNTAGGED, all);
        }
    }
}

proof fn lemma_words_skip(s: Seq<char>, k: int)
    requires
        0 <= k <= s.len(),
    ensures
        words_from(s, k) == words(s.skip(k)),
{
    lemma_words_shift(s, k, 0);
}

/// The memories of a category, read from the content of its file. A category
/// without a file has none.
pub fn retrieve(content: Option<&str>) -> (m: Memories)
    ensures
        m@ == retrieved(opt_text(content)),
        distinct_keys(m@),
{
    let mut m = Memories::new();
    match content {
        None => m,
        Some(c) => {
            proof {
                reveal_strlit("\n\n");
            }
            let blocks = split_on(c, BLOCK_END);
            let ghost view = blocks_of(c@);
            let mut i: usize = 0;
            while i < blocks.len()
                invariant
                    i <= blocks@.len(),
                    texts(blocks@) == view,
                    m@ == grouped(view.take(i as int)),
                decreases blocks@.len() - i,
            {
                m.add_block(blocks[i].as_str());
                proof {
                    assert(view.take(i + 1).drop_last() =~= view.take(i as int));
                }
                i += 1;
            }
            proof {
                assert(view.take(i as int) =~= view);
                lemma_grouped_distinct(view);
            }
            m
        },
    }
}

proof fn lemma_grouped_distinct(blocks: Seq<Seq<char>>)
    ensures
        distinct_keys(grouped(blocks)),
    decreases blocks.len(),
{
    if blocks.len() > 0 {
        let before = grouped(blocks.drop_last());
        lemma_grouped_distinct(blocks.drop_last());
        let all = lines(blocks.last());
        if all.len() > 0 {
            let key = tag_key(all[0].skip(1));
            law_put(before, key, lines_at(before, key) + all.skip(1));
            law_put(before, UNTAGGED@, lines_at(before, UNTAGGED@) + all);
        }
    }
}

/// What is written for a memory: a line with its tags, if it has any, its text
/// and an empty line.
pub open spec fn record(data: Seq<char>, tags: Seq<Seq<char>>) -> Seq<char> {
    block_of(data, tags) + BLOCK_END@
}

/// The block of a memory.
pub open spec fn block_of(data: Seq<char>, tags: Seq<Seq<char>>) -> Seq<char> {
    if tags.len() == 0 {
        data
    } else {
        "# "@ + join(tags, " "@) + "\n"@ + data
    }
}

/// What is written for a memory, behind the end of its file.
pub fn record_text(data: &str, tags: &[&str]) -> (s: String)
    ensures
        s@ == record(data@, str_texts(tags@)),
{
    let mut s = String::new();
    if tags.len() > 0 {
        s.append("# ");
        s.append(join_strs(tags, " ").as_str());
        s.append("\n");
    }
    s.append(data);
    s.append(BLOCK_END);
    proof {
        if tags@.len() > 0 {
            assert(s@ =~= record(data@, str_texts(tags@)));
        } else {
            assert(s@ =~= record(data@, str_texts(tags@)));
        }
    }
    s
}

/// The blocks that do not hold the text.
pub open spec fn blocks_without(blocks: Seq<Seq<char>>, text: Seq<char>) -> Seq<Seq<char>>
    decreases blocks.len(),
{
    if blocks.len() == 0 {
        Seq::empty()
    } else {
        let before = blocks_without(blocks.drop_last(), text);
        if contains_text(blocks.last(), text) {
            before
        } else {
            before.push(blocks.last())
        }
    }
}

/// The content of a file without the blocks that hold the text.
pub open spec fn removed(content: Seq<char>, text: Seq<char>) -> Seq<char> {
    join(blocks_without(blocks_of(content), text), BLOCK_END@)
}

/// The content of a file without the blocks that hold the text.
pub fn without_memory(content: &str, memory_content: &str) -> (s: String)
    ensures
        s@ == removed(content@, memory_content@),
{
    proof {
        reveal_strlit("\n\n");
    }
    let blocks = split_on(content, BLOCK_END);
    let ghost view = blocks_of(content@);
    let mut kept: Vec<String> = Vec::new();
    let mut i: usize = 0;
    while i < blocks.len()
        invariant
            i <= blocks@.len(),
            texts(blocks@) == view,
            texts(kept@) == blocks_without(view.take(i as int), memory_content@),
        decreases blocks@.len() - i,
    {
        proof {
            assert(view.take(i + 1).drop_last() =~= view.take(i as int));
            assert(view[i as int] == blocks@[i as int]@);
        }
        let ghost before = kept@;
        if !contains(blocks[i].as_str(), memory_content) {
            kept.push(blocks[i].clone());
            proof {
                assert(texts(kept@) =~= texts(before).push(view[i as int]));
            }
        }
        i += 1;
    }
    proof {
        assert(view.take(i as int) =~= view);
    }
    join_strings(kept.as_slice(), BLOCK_END)
}

} // verus!
