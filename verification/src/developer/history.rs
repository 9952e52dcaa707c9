//! The versions of files before each edit, kept for undoing.

use vstd::prelude::*;

use crate::developer::paths::{FilePath, PathKey};
use crate::text::{same_text, texts};

verus! {

/// One version of a file.
#[derive(Debug)]
pub struct Version {
    pub components: Vec<String>,
    pub content: String,
}

/// The versions of all edited files, in the order in which they were saved.
#[derive(Debug)]
pub struct FileHistory {
    saved: Vec<Version>,
}

/// The versions that belong to one path, oldest first.
pub closed spec fn versions_in(saved: Seq<Version>, key: PathKey) -> Seq<Seq<char>>
    decreases saved.len(),
{
    if saved.len() == 0 {
        Seq::empty()
    } else if texts(saved.last().components@) == key {
        versions_in(saved.drop_last(), key).push(saved.last().content@)
    } else {
        versions_in(saved.drop_last(), key)
    }
}

proof fn lemma_versions_concat(a: Seq<Version>, b: Seq<Version>, key: PathKey)
    ensures
        versions_in(a + b, key) == versions_in(a, key) + versions_in(b, key),
    decreases b.len(),
{
    if b.len() == 0 {
        assert(a + b =~= a);
        assert(versions_in(a, key) + Seq::empty() =~= versions_in(a, key));
    } else {
        lemma_versions_concat(a, b.drop_last(), key);
        assert((a + b).drop_last() =~= a + b.drop_last());
        assert(versions_in(a + b, key) =~= versions_in(a, key) + versions_in(b, key));
    }
}

proof fn lemma_versions_none(b: Seq<Version>, key: PathKey)
    requires
        forall|j: int| 0 <= j < b.len() ==> texts((#[trigger] b[j]).components@) != key,
    ensures
        versions_in(b, key) == Seq::<Seq<char>>::empty(),
    decreases b.len(),
{
    if b.len() > 0 {
        lemma_versions_none(b.drop_last(), key);
    }
}

proof fn lemma_versions_one(v: Version, key: PathKey)
    ensures
        versions_in(seq![v], key) == if texts(v.components@) == key {
            seq![v.content@]
        } else {
            Seq::empty()
        },
{
    assert(seq![v].drop_last() =~= Seq::empty());
    assert(versions_in(Seq::empty(), key) =~= Seq::empty());
    assert(Seq::empty().push(v.content@) =~= seq![v.content@]);
}

/// Whether two lists of components are the same.
fn same_components(a: &Vec<String>, b: &Vec<String>) -> (r: bool)
    ensures
        r == (texts(a@) == texts(b@)),
{
    if a.len() != b.len() {
        proof {
            assert(texts(a@).len() != texts(b@).len());
        }
        return false;
    }
    let mut i: usize = 0;
    while i < a.len()
        invariant
            a@.len() == b@.len(),
            i <= a@.len(),
            forall|j: int| 0 <= j < i ==> a@[j]@ == b@[j]@,
        decreases a@.len() - i,
    {
        if !same_text(a[i].as_str(), b[i].as_str()) {
            proof {
                assert(texts(a@)[i as int] != texts(b@)[i as int]);
            }
            return false;
        }
        i += 1;
    }
    proof {
        assert(texts(a@) =~= texts(b@));
    }
    true
}

fn duplicate_components(v: &Vec<String>) -> (copy: Vec<String>)
    ensures
        texts(copy@) == texts(v@),
{
    let mut copy: Vec<String> = Vec::new();
    let mut i: usize = 0;
    while i < v.len()
        invariant
            i <= v@.len(),
            copy@.len() == i,
            forall|j: int| 0 <= j < i ==> (#[trigger] copy@[j])@ == v@[j]@,
        decreases v@.len() - i,
    {
        copy.push(v[i].clone());
        i += 1;
    }
    proof {
        assert(texts(copy@) =~= texts(v@));
    }
    copy
}

/// `after` is `before` with one more version of one path.
pub open spec fn saves(
    before: FileHistory,
    after: FileHistory,
    key: PathKey,
    content: Seq<char>,
) -> bool {
    forall|k: PathKey| #[trigger]
        after.versions(k) == if k == key {
            before.versions(k).push(content)
        } else {
            before.versions(k)
        }
}

/// `after` is `before` without the last version of one path, which is `content`.
pub open spec fn takes_back(
    before: FileHistory,
    after: FileHistory,
    key: PathKey,
    content: Seq<char>,
) -> bool {
    &&& before.versions(key).len() > 0
    &&& content == before.versions(key).last()
    &&& forall|k: PathKey| #[trigger]
        after.versions(k) == if k == key {
            before.versions(k).drop_last()
        } else {
            before.versions(k)
        }
}

impl FileHistory {
    /// The versions saved of one path and not yet taken back, oldest first.
    pub closed spec fn versions(self, key: PathKey) -> Seq<Seq<char>> {
        versions_in(self.saved@, key)
    }

    /// A history without versions.
    pub fn new() -> (h: FileHistory)
        ensures
            forall|k: PathKey| (#[trigger] h.versions(k)) == Seq::<Seq<char>>::empty(),
    {
        FileHistory { saved: Vec::new() }
    }

    /// Saves a version of a file. Those of other files stay as they are.
    pub fn save(&mut self, path: &FilePath, content: String)
        ensures
            saves(*old(self), *final(self), path.key(), content@),
    {
        let ghost before = self.saved@;
        self.saved.push(
            Version { components: duplicate_components(path.components()), content },
        );
        proof {
            assert(self.saved@.drop_last() =~= before);
        }
    }

    /// Takes back the version of a file that was saved last, if there is one.
    /// The versions of other files stay as they are.
    pub fn take_last(&mut self, path: &FilePath) -> (r: Option<String>)
        ensures
            old(self).versions(path.key()).len() == 0 ==> r is None && *final(self) == *old(self),
            old(self).versions(path.key()).len() > 0 ==> r is Some && takes_back(
                *old(self),
                *final(self),
                path.key(),
                r->0@,
            ),
    {
        let ghost before = self.saved@;
        let mut n: usize = self.saved.len();
        while n > 0
            invariant
                *self == *old(self),
                self.saved@ == before,
                n <= before.len(),
                forall|j: int|
                    n <= j < before.len() ==> texts((#[trigger] before[j]).components@)
                        != path.key(),
            decreases n,
        {
            n -= 1;
            if same_components(&self.saved[n].components, path.components()) {
                let taken = self.saved.remove(n);
                proof {
                    let a = before.take(n as int);
                    let v = before[n as int];
                    let b = before.skip(n + 1);
                    assert(before =~= a + seq![v] + b);
                    assert(self.saved@ =~= a + b);
                    lemma_versions_none(b, path.key());
                    assert forall|k: PathKey| #[trigger]
                        self.versions(k) == if k == path.key() {
                            old(self).versions(k).drop_last()
                        } else {
                            old(self).versions(k)
                        } by {
                        lemma_versions_concat(a + seq![v], b, k);
                        lemma_versions_concat(a, seq![v], k);
                        lemma_versions_concat(a, b, k);
                        lemma_versions_one(v, k);
                        if k == path.key() {
                            assert(old(self).versions(k) =~= versions_in(a, k).push(v.content@));
                            assert(self.versions(k) =~= versions_in(a, k));
                        } else {
                            assert(self.versions(k) =~= old(self).versions(k));
                        }
                    }
                    lemma_versions_concat(a + seq![v], b, path.key());
                    lemma_versions_concat(a, seq![v], path.key());
                    lemma_versions_one(v, path.key());
                    assert(old(self).versions(path.key()) =~= versions_in(a, path.key()).push(
                        v.content@,
                    ));
                }
                return Some(taken.content);
            }
        }
        proof {
            lemma_versions_none(before, path.key());
        }
        None
    }
}

/// Taking back right after saving gives the saved version and leaves the history
/// as it was.
pub proof fn law_take_back_what_was_saved(
    before: FileHistory,
    saved: FileHistory,
    after: FileHistory,
    key: PathKey,
    content: Seq<char>,
    taken: Seq<char>,
)
    requires
        saves(before, saved, key, content),
        takes_back(saved, after, key, taken),
    ensures
        taken == content,
        forall|k: PathKey| #[trigger] after.versions(k) == before.versions(k),
{
    assert forall|k: PathKey| #[trigger] after.versions(k) == before.versions(k) by {
        assert(before.versions(k).push(content).drop_last() =~= before.versions(k));
    }
}

/// Taking back as many versions as were saved, file by file in the opposite order,
/// gives them back last first and leaves the history as it was. Between the first and
/// the last stand the histories after each step.
pub proof fn law_take_back_all_that_was_saved(
    up: Seq<FileHistory>,
    down: Seq<FileHistory>,
    keys: Seq<PathKey>,
    contents: Seq<Seq<char>>,
    taken: Seq<Seq<char>>,
    n: int,
)
    requires
        0 <= n,
        up.len() == n + 1,
        down.len() == n + 1,
        keys.len() == n,
        contents.len() == n,
        taken.len() == n,
        down[0] == up[n],
        forall|i: int|
            0 <= i < n ==> saves(#[trigger] up[i], up[i + 1], keys[i], contents[i]),
        forall|i: int|
            0 <= i < n ==> takes_back(#[trigger] down[i], down[i + 1], keys[n - 1 - i], taken[i]),
    ensures
        forall|i: int| 0 <= i < n ==> #[trigger] taken[i] == contents[n - 1 - i],
        forall|k: PathKey| #[trigger] down[n].versions(k) == up[0].versions(k),
{
    lemma_taken_back(up, down, keys, contents, taken, n, n);
    assert forall|i: int| 0 <= i < n implies #[trigger] taken[i] == contents[n - 1 - i] by {
        lemma_taken_back(up, down, keys, contents, taken, n, i + 1);
    }
}

proof fn lemma_taken_back(
    up: Seq<FileHistory>,
    down: Seq<FileHistory>,
    keys: Seq<PathKey>,
    contents: Seq<Seq<char>>,
    taken: Seq<Seq<char>>,
    n: int,
    m: int,
)
    requires
        0 <= m <= n,
        up.len() == n + 1,
        down.len() == n + 1,
        keys.len() == n,
        contents.len() == n,
        taken.len() == n,
        down[0] == up[n],
        forall|i: int|
            0 <= i < n ==> saves(#[trigger] up[i], up[i + 1], keys[i], contents[i]),
        forall|i: int|
            0 <= i < n ==> takes_back(#[trigger] down[i], down[i + 1], keys[n - 1 - i], taken[i]),
    ensures
        forall|k: PathKey| #[trigger] down[m].versions(k) == up[n - m].versions(k),
        m > 0 ==> taken[m - 1] == contents[n - m],
    decreases m,
{
    if m > 0 {
        lemma_taken_back(up, down, keys, contents, taken, n, m - 1);
        let key = keys[n - m];
        assert(saves(up[n - m], up[n - m + 1], key, contents[n - m]));
        assert(takes_back(down[m - 1], down[m], key, taken[m - 1]));
        assert(down[m - 1].versions(key) == up[n - m + 1].versions(key));
        assert forall|k: PathKey| #[trigger] down[m].versions(k) == up[n - m].versions(k) by {
            assert(down[m - 1].versions(k) == up[n - m + 1].versions(k));
            if k == key {
                assert(up[n - m].versions(k).push(contents[n - m]).drop_last()
                    =~= up[n - m].versions(k));
            }
        }
    }
}

} // verus!
