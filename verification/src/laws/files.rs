//! Laws of the operations on single files: substitution, backup and
//! restore.

use vstd::prelude::*;
use crate::components::PithoView;
use crate::error::ErrorKind;
use crate::pattern::{pattern_compiles, pattern_matches, pattern_replace_all};
use crate::store::{is_dir, is_file, NodeView, StoreView};
use crate::utils::{
    backup_location, backup_outcome, copy_of, read_outcome, replace_outcome, restore_outcome,
};

verus! {

/// A substitution on a file whose text holds a match succeeds, and the file
/// then holds the text with every match replaced; nothing else in the store
/// changes.
pub proof fn law_replace_rewrites_every_match(
    s: StoreView,
    path: Seq<char>,
    from: Seq<char>,
    to: Seq<char>,
)
    requires
        read_outcome(s, path) is Ok,
        pattern_compiles(from),
        pattern_matches(from, read_outcome(s, path)->Ok_0),
    ensures
        replace_outcome(s, path, from, to) == Ok::<StoreView, ErrorKind>(
            s.insert(
                path,
                NodeView::File {
                    content: pattern_replace_all(from, read_outcome(s, path)->Ok_0, to),
                    is_output: false,
                },
            ),
        ),
{
}

/// What a substitution makes of a file depends on the text of that file
/// alone: in two stores that agree on the file, it fails alike or leaves the
/// same file behind.
pub proof fn law_replace_is_reproducible(
    first: StoreView,
    second: StoreView,
    path: Seq<char>,
    from: Seq<char>,
    to: Seq<char>,
)
    requires
        first.contains_key(path) == second.contains_key(path),
        first.contains_key(path) ==> first[path] == second[path],
    ensures
        match (replace_outcome(first, path, from, to), replace_outcome(second, path, from, to)) {
            (Ok(a), Ok(b)) => a.contains_key(path) && b.contains_key(path) && a[path] == b[path],
            (Err(x), Err(y)) => x == y,
            _ => false,
        },
{
}

/// A substitution or deletion whose pattern has no match in the file fails
/// with `NoMatch`. (A failed operation leaves the store as it was: see
/// `settles`.)
pub proof fn law_no_match_is_refused(s: StoreView, op: PithoView)
    requires
        op.pattern() is Some,
        read_outcome(s, op.path()) is Ok,
        pattern_compiles(op.pattern()->0),
        !pattern_matches(op.pattern()->0, read_outcome(s, op.path())->Ok_0),
    ensures
        op.outcome(s) == Err::<StoreView, ErrorKind>(ErrorKind::NoMatch),
{
}

/// Backing a file up, changing it, and restoring it brings back the text
/// that it had at the backup. The backup has to be the first of the file,
/// or to hold the same text already at another path than the file's own: a
/// backup that is there is never written again.
pub proof fn law_backup_then_restore(
    s: StoreView,
    x: Seq<char>,
    root: Seq<char>,
    changed: Seq<char>,
    mark: bool,
)
    requires
        is_file(s, x),
        s.contains_key(backup_location(root, x)) ==> {
            &&& backup_location(root, x) != x
            &&& is_file(s, backup_location(root, x))
            &&& s[backup_location(root, x)]->File_content == s[x]->File_content
        },
    ensures
        backup_outcome(s, x, root) is Ok,
        ({
            let saved = backup_outcome(s, x, root)->Ok_0;
            let edited = saved.insert(x, NodeView::File { content: changed, is_output: mark });
            &&& restore_outcome(edited, root, x) is Ok
            &&& is_file(restore_outcome(edited, root, x)->Ok_0, x)
            &&& restore_outcome(edited, root, x)->Ok_0[x]->File_content == s[x]->File_content
        }),
{
}

/// A second backup of a path never overwrites the first: whatever the path
/// has become in between, the second call succeeds and changes nothing, so
/// the backup still is the copy that the first call made or found. The path
/// must not be its own backup place.
pub proof fn law_backup_is_kept(s: StoreView, x: Seq<char>, root: Seq<char>, changed: NodeView)
    requires
        backup_outcome(s, x, root) is Ok,
        backup_location(root, x) != x,
    ensures
        ({
            let place = backup_location(root, x);
            let first = backup_outcome(s, x, root)->Ok_0;
            let edited = first.insert(x, changed);
            &&& backup_outcome(edited, x, root) == Ok::<StoreView, ErrorKind>(edited)
            &&& edited.contains_key(place)
            &&& edited[place] == first[place]
            &&& !s.contains_key(place) ==> first[place] == copy_of(s[x])
        }),
{
}

/// The stores `a` and `b` hold the same under `path`.
pub open spec fn same_at(a: StoreView, b: StoreView, path: Seq<char>) -> bool {
    a.contains_key(path) == b.contains_key(path) && (a.contains_key(path) ==> a[path] == b[path])
}

/// The stores `a` and `b` hold the same under each of `paths`.
pub open spec fn same_on(a: StoreView, b: StoreView, paths: Set<Seq<char>>) -> bool {
    forall|path: Seq<char>| #[trigger] paths.contains(path) ==> same_at(a, b, path)
}

/// Backing up a directory that has no backup yet makes a directory at the
/// backup place with the files and subdirectories of the source, at any
/// depth and with the same texts, and with nothing else; the source and
/// every other path stay as they are.
pub proof fn law_backup_copies_a_directory(s: StoreView, src: Seq<char>, root: Seq<char>)
    requires
        is_dir(s, src),
        !s.contains_key(backup_location(root, src)),
    ensures
        backup_outcome(s, src, root) is Ok,
        ({
            let place = backup_location(root, src);
            let saved = backup_outcome(s, src, root)->Ok_0;
            &&& is_dir(saved, place)
            &&& saved[place]->Directory_members == s[src]->Directory_members
            &&& forall|path: Seq<char>| path != place ==> #[trigger] same_at(saved, s, path)
        }),
{
}

/// Restoring a directory from its backup brings back every file and
/// subdirectory that the backup holds; what the directory holds beside
/// them stays.
pub proof fn law_restore_returns_the_saved_members(
    s: StoreView,
    root: Seq<char>,
    target: Seq<char>,
)
    requires
        is_dir(s, target),
        is_dir(s, backup_location(root, target)),
    ensures
        restore_outcome(s, root, target) is Ok,
        ({
            let saved = s[backup_location(root, target)]->Directory_members;
            let held = s[target]->Directory_members;
            let back = restore_outcome(s, root, target)->Ok_0;
            &&& is_dir(back, target)
            &&& forall|name: Seq<char>| #[trigger]
                saved.contains_key(name) ==> back[target]->Directory_members.contains_key(name)
                    && back[target]->Directory_members[name] == saved[name]
            &&& forall|name: Seq<char>| #[trigger]
                held.contains_key(name) && !saved.contains_key(name)
                    ==> back[target]->Directory_members.contains_key(name)
                    && back[target]->Directory_members[name] == held[name]
        }),
{
}

} // verus!
