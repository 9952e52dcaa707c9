//! What the actions of the memory tools do to the files, and what holds of it.

use vstd::prelude::*;

use crate::memory::router::{file_in, MemoryActionView, MemoryPathView, MemoryRouter};
use crate::memory::store::{removed, retrieved, GroupView};

verus! {

/// The files of memories, by the texts of their paths. Paths with different texts are
/// taken for different files here. Where a category holds a separator they need not
/// be: the categories `c` and `./c` have one file. What is said of the files of several
/// categories is therefore said of plain categories.
pub type Files = Map<MemoryPathView, Seq<char>>;

/// A category that names a file in the directory itself.
pub open spec fn plain_category(category: Seq<char>) -> bool {
    !category.contains('/') && !category.contains('\\') && !category.contains(':')
}

/// The directory is the other one or lies within it.
pub open spec fn within(dir: Seq<char>, outer: Seq<char>) -> bool {
    ||| dir == outer
    ||| (outer + seq!['/']).is_prefix_of(dir)
    ||| (outer + seq!['\\']).is_prefix_of(dir)
}

/// What stands in a file, if there is one.
pub open spec fn content_at(files: Files, path: MemoryPathView) -> Option<Seq<char>> {
    if files.contains_key(path) {
        Some(files[path])
    } else {
        None
    }
}

/// The files after an action is done.
pub open spec fn performed(files: Files, action: MemoryActionView) -> Files {
    match action {
        MemoryActionView::Remember { path, text, .. } => files.insert(
            path,
            match content_at(files, path) {
                Some(content) => content + text,
                None => text,
            },
        ),
        MemoryActionView::Retrieve { .. } => files,
        MemoryActionView::RetrieveAll { .. } => files,
        MemoryActionView::Clear { path, .. } => files.remove(path),
        MemoryActionView::ClearAll { dir, .. } => files.remove_keys(
            files.dom().filter(|p: MemoryPathView| within(p.dir, dir)),
        ),
        MemoryActionView::RemoveSpecific { path, memory_content, .. } => match content_at(
            files,
            path,
        ) {
            Some(content) => files.insert(path, removed(content, memory_content)),
            None => files,
        },
    }
}

/// The action is about the file.
pub open spec fn concerns(action: MemoryActionView, file: MemoryPathView) -> bool {
    match action {
        MemoryActionView::Remember { path, .. } => path == file,
        MemoryActionView::Retrieve { .. } => false,
        MemoryActionView::RetrieveAll { .. } => false,
        MemoryActionView::Clear { path, .. } => path == file,
        MemoryActionView::ClearAll { dir, .. } => within(file.dir, dir),
        MemoryActionView::RemoveSpecific { path, .. } => path == file,
    }
}

/// An action changes no file but those that it is about.
pub proof fn law_actions_leave_other_files(
    files: Files,
    action: MemoryActionView,
    file: MemoryPathView,
)
    requires
        !concerns(action, file),
    ensures
        content_at(performed(files, action), file) == content_at(files, file),
{
}

/// The paths of different categories, and those of one category in directories with
/// different paths, have different texts.
pub proof fn law_categories_have_paths_of_their_own(
    dir: Seq<char>,
    category: Seq<char>,
    other_dir: Seq<char>,
    other: Seq<char>,
)
    ensures
        file_in(dir, category) == file_in(other_dir, other) <==> dir == other_dir && category
            == other,
{
    let a = category + ".txt"@;
    let b = other + ".txt"@;
    if file_in(dir, category) == file_in(other_dir, other) {
        assert(a == file_in(dir, category).file_name);
        assert(b == file_in(other_dir, other).file_name);
        assert(a.len() == b.len());
        assert(a.take(category.len() as int) =~= category);
        assert(b.take(other.len() as int) =~= other);
    }
}

/// Clearing a plain category leaves it without memories, however often it is done.
/// Every other plain category keeps what it had, and so does this one in the other
/// directory, if that has another path.
pub proof fn law_cleared_category_is_empty(
    router: MemoryRouter,
    files: Files,
    category: Seq<char>,
    is_global: bool,
)
    requires
        plain_category(category),
    ensures
        ({
            let path = file_in(router.dir(is_global), category);
            let clear = MemoryActionView::Clear { path, category, is_global };
            let after = performed(files, clear);
            &&& retrieved(content_at(after, path)) == Seq::<GroupView>::empty()
            &&& performed(after, clear) == after
            &&& forall|other: Seq<char>, scope: bool|
                plain_category(other) && (other != category || router.dir(scope) != router.dir(
                    is_global,
                )) ==> content_at(
                    after,
                    #[trigger] file_in(router.dir(scope), other),
                ) == content_at(files, file_in(router.dir(scope), other))
        }),
{
    let path = file_in(router.dir(is_global), category);
    let after = performed(files, MemoryActionView::Clear { path, category, is_global });
    assert(after.remove(path) =~= after);
    assert forall|other: Seq<char>, scope: bool|
        plain_category(other) && (other != category || router.dir(scope) != router.dir(
            is_global,
        )) implies content_at(
        after,
        #[trigger] file_in(router.dir(scope), other),
    ) == content_at(files, file_in(router.dir(scope), other)) by {
        law_categories_have_paths_of_their_own(
            router.dir(scope),
            other,
            router.dir(is_global),
            category,
        );
    }
}

/// Clearing all global or all local memories leaves every plain category there without
/// memories, and changes none in the other directory, if that does not lie within.
pub proof fn law_cleared_scope_is_empty(router: MemoryRouter, files: Files, is_global: bool)
    ensures
        ({
            let dir = router.dir(is_global);
            let after = performed(files, MemoryActionView::ClearAll { dir, is_global });
            &&& forall|category: Seq<char>|
                plain_category(category) ==> retrieved(
                    content_at(after, #[trigger] file_in(dir, category)),
                ) == Seq::<GroupView>::empty()
            &&& forall|category: Seq<char>, scope: bool|
                plain_category(category) && !within(router.dir(scope), dir) ==> content_at(
                    after,
                    #[trigger] file_in(router.dir(scope), category),
                ) == content_at(files, file_in(router.dir(scope), category))
        }),
{
}

} // verus!
