//! Paths, and the operations on files of the store: reading and writing
//! a text file, copying into and out of the backup directory, and
//! substituting the occurrences of a pattern.
//!
//! Paths are read in one way on every platform, and it is the engine's own
//! reading, not that of `std::path`:
//!
//! - `/` and `\` both part the components of a path, on Unix as on
//!   Windows. (`std::path` takes a backslash for a part of a name on Unix:
//!   there `a\` joined with `b` is `a\/b`, here it is `a\b`.)
//! - `.` and `..` are names like any other. (`std::path` gives `a/..` no
//!   file name, and drops a `.` at the end; here the final component of
//!   `a/..` is `..`.)
//! - Paths are compared as written: `a//b` and `a/b` are two paths.
//!
//! A front end that maps the paths of the store to a disk has to keep to
//! paths for which the two readings agree.

use vstd::prelude::*;
use vstd::string::*;
use crate::error::{raised, CustomError, ErrorKind};
use crate::pattern::{rewrite, rewrite_of};
use crate::store::{
    is_dir, is_file, FileStore, Member, MemberView, Node, NodeView, StoreView,
};
use crate::table::Table;

verus! {

/// The characters that part the components of a path: `/` and `\`, on
/// every platform.
pub open spec fn is_separator(c: char) -> bool {
    c == '/' || c == '\\'
}

/// `base` with `name` adjoined. A `name` that starts with a separator stands
/// for itself; otherwise one `/` parts the two unless `base` is empty or
/// ends with a separator already.
pub open spec fn joined(base: Seq<char>, name: Seq<char>) -> Seq<char> {
    if name.len() > 0 && is_separator(name[0]) {
        name
    } else if base.len() == 0 || is_separator(base.last()) {
        base + name
    } else {
        base + seq!['/'] + name
    }
}

/// `path` without the separators at its end.
pub open spec fn trimmed(path: Seq<char>) -> Seq<char>
    decreases path.len(),
{
    if path.len() > 0 && is_separator(path.last()) {
        trimmed(path.drop_last())
    } else {
        path
    }
}

/// Where the last run of characters other than separators begins.
pub open spec fn name_start(path: Seq<char>) -> int
    decreases path.len(),
{
    if path.len() == 0 || is_separator(path.last()) {
        path.len() as int
    } else {
        name_start(path.drop_last())
    }
}

/// The final component of `path`: what stands behind the last separator once
/// the separators at the end are dropped. It is empty where the path holds
/// nothing but separators. `.` and `..` are components like any other.
pub open spec fn final_component(path: Seq<char>) -> Seq<char> {
    let t = trimmed(path);
    t.subrange(name_start(t), t.len() as int)
}

/// Where the backup of `path` lies under `root`: files are told apart by
/// their final component alone.
pub open spec fn backup_location(root: Seq<char>, path: Seq<char>) -> Seq<char> {
    joined(root, final_component(path))
}

fn is_separator_char(c: char) -> (b: bool)
    ensures
        b == is_separator(c),
{
    c == '/' || c == '\\'
}

/// Joins a file name to a path, by the engine's own reading of paths: a
/// name that starts with `/` or `\` stands for itself, and one `/` is put
/// between the two unless the path is empty or ends with `/` or `\`.
pub fn join_path(hades_path: &str, file_name: &str) -> (path: String)
    ensures
        path@ == joined(hades_path@, file_name@),
{
    let name_len = file_name.unicode_len();
    if name_len > 0 && is_separator_char(file_name.get_char(0)) {
        return file_name.to_owned();
    }
    let base_len = hades_path.unicode_len();
    let mut path = hades_path.to_owned();
    if base_len > 0 && !is_separator_char(hades_path.get_char(base_len - 1)) {
        proof {
            reveal_strlit("/");
        }
        path.append("/");
        assert(path@ =~= hades_path@ + seq!['/']);
    }
    path.append(file_name);
    path
}

/// The final component of a path, by the engine's own reading of paths:
/// `/` and `\` both part components, and `.` and `..` are names.
pub fn file_name(path: &str) -> (name: String)
    ensures
        name@ == final_component(path@),
{
    let len = path.unicode_len();
    let mut end: usize = len;
    assert(path@.take(end as int) =~= path@);
    while end > 0 && is_separator_char(path.get_char(end - 1))
        invariant
            end <= len,
            len == path@.len(),
            trimmed(path@) == trimmed(path@.take(end as int)),
        decreases end,
    {
        assert(path@.take(end as int).drop_last() =~= path@.take(end - 1));
        end = end - 1;
    }
    let ghost t = path@.take(end as int);
    assert(trimmed(t) == t);
    let mut start: usize = end;
    assert(t.take(start as int) =~= t);
    while start > 0 && !is_separator_char(path.get_char(start - 1))
        invariant
            start <= end <= len,
            len == path@.len(),
            t == path@.take(end as int),
            name_start(t) == name_start(t.take(start as int)),
        decreases start,
    {
        assert(t.take(start as int).drop_last() =~= t.take(start - 1));
        start = start - 1;
    }
    assert(name_start(t.take(start as int)) == start);
    let name = path.substring_char(start, end).to_owned();
    assert(name@ =~= t.subrange(start as int, t.len() as int));
    name
}

/// The place under `root` where the backup of `path` is kept.
pub fn backup_path(root: &str, path: &str) -> (place: String)
    ensures
        place@ == backup_location(root@, path@),
{
    let name = file_name(path);
    join_path(root, name.as_str())
}

/// How a call that works on the store ended, held against what it had to
/// do: on success the store is the foreseen one, on failure the error is the
/// foreseen one and the store is as it was.
pub open spec fn settles(
    r: Result<(), CustomError>,
    before: StoreView,
    after: StoreView,
    outcome: Result<StoreView, ErrorKind>,
) -> bool {
    match outcome {
        Ok(s) => r is Ok && after == s,
        Err(kind) => r matches Err(e) && e@ == raised(kind) && after == before,
    }
}

/// What reading `path` as text gives.
pub open spec fn read_outcome(s: StoreView, path: Seq<char>) -> Result<Seq<char>, ErrorKind> {
    if !s.contains_key(path) {
        Err(ErrorKind::IoError)
    } else {
        match s[path] {
            NodeView::Directory { .. } => Err(ErrorKind::IoError),
            NodeView::File { content, is_output } => if is_output {
                Err(ErrorKind::SameFileConflict)
            } else {
                Ok(content)
            },
        }
    }
}

/// What writing `text` to the file `path` does: the file has to be there
/// already, and it gets `text` as its whole content.
pub open spec fn write_outcome(s: StoreView, path: Seq<char>, text: Seq<char>) -> Result<
    StoreView,
    ErrorKind,
> {
    match read_outcome(s, path) {
        Err(kind) => Err(kind),
        Ok(_) => Ok(s.insert(path, NodeView::File { content: text, is_output: false })),
    }
}

/// What copying the file `src` to `dest` does. A file at `dest` keeps its
/// mark and gets the content of `src`.
pub open spec fn copy_file_outcome(s: StoreView, src: Seq<char>, dest: Seq<char>) -> Result<
    StoreView,
    ErrorKind,
> {
    if !is_file(s, src) {
        Err(ErrorKind::NotFoundOrWrongType)
    } else if is_dir(s, dest) {
        Err(ErrorKind::IoError)
    } else {
        Ok(
            s.insert(
                dest,
                NodeView::File {
                    content: s[src]->File_content,
                    is_output: is_file(s, dest) && s[dest]->File_is_output,
                },
            ),
        )
    }
}

/// What copying the directory `src` to `dest` does. The files and
/// subdirectories of `src`, at any depth, are entered at `dest` under the
/// same paths, in place of what `dest` held there; what else `dest` holds
/// stays.
pub open spec fn copy_directory_outcome(s: StoreView, src: Seq<char>, dest: Seq<char>) -> Result<
    StoreView,
    ErrorKind,
> {
    if !is_dir(s, src) {
        Err(ErrorKind::NotFoundOrWrongType)
    } else if is_file(s, dest) {
        Err(ErrorKind::IoError)
    } else {
        let kept = if is_dir(s, dest) {
            s[dest]->Directory_members
        } else {
            Map::empty()
        };
        Ok(
            s.insert(
                dest,
                NodeView::Directory {
                    members: kept.union_prefer_right(s[src]->Directory_members),
                },
            ),
        )
    }
}

/// What a fresh copy of `node` is: the same content, without the mark of
/// the output stream.
pub open spec fn copy_of(node: NodeView) -> NodeView {
    match node {
        NodeView::File { content, .. } => NodeView::File { content, is_output: false },
        NodeView::Directory { members } => NodeView::Directory { members },
    }
}

/// What backing up `src` under `root` does: nothing where the backup is
/// there already, a copy of `src` otherwise.
pub open spec fn backup_outcome(s: StoreView, src: Seq<char>, root: Seq<char>) -> Result<
    StoreView,
    ErrorKind,
> {
    let place = backup_location(root, src);
    if s.contains_key(place) {
        Ok(s)
    } else if s.contains_key(src) {
        Ok(s.insert(place, copy_of(s[src])))
    } else {
        Err(ErrorKind::NotFoundOrWrongType)
    }
}

/// What `target` holds after its backup `saved` was copied onto it: a file
/// gets the saved content, a directory gets the saved files and
/// subdirectories back beside what it has since gained.
pub open spec fn restored(target: NodeView, saved: NodeView) -> NodeView {
    match target {
        NodeView::File { is_output, .. } => NodeView::File {
            content: saved->File_content,
            is_output,
        },
        NodeView::Directory { members } => NodeView::Directory {
            members: members.union_prefer_right(saved->Directory_members),
        },
    }
}

/// What restoring `target` from its backup under `root` does: nothing where
/// there is no backup; otherwise `target` has to be there and be of the
/// backup's sort.
pub open spec fn restore_outcome(s: StoreView, root: Seq<char>, target: Seq<char>) -> Result<
    StoreView,
    ErrorKind,
> {
    let place = backup_location(root, target);
    if !s.contains_key(place) {
        Ok(s)
    } else if is_dir(s, target) && is_dir(s, place) || is_file(s, target) && is_file(s, place) {
        Ok(s.insert(target, restored(s[target], s[place])))
    } else {
        Err(ErrorKind::NotFoundOrWrongType)
    }
}

/// Reads the whole text of a file.
pub fn read_from_file(store: &FileStore, file_path: &str) -> (r: Result<String, CustomError>)
    ensures
        match read_outcome(store@, file_path@) {
            Ok(text) => r matches Ok(content) && content@ == text,
            Err(kind) => r matches Err(e) && e@ == raised(kind),
        },
{
    match store.get(file_path) {
        Some(Node::File { content, is_output }) => {
            if *is_output {
                Err(CustomError::of_kind(ErrorKind::SameFileConflict))
            } else {
                Ok(content.clone())
            }
        },
        _ => Err(CustomError::of_kind(ErrorKind::IoError)),
    }
}

/// Writes `content` as the whole text of a file that is there already.
pub fn write_to_file(store: &mut FileStore, file_path: &str, content: &str) -> (r: Result<
    (),
    CustomError,
>)
    ensures
        settles(
            r,
            old(store)@,
            final(store)@,
            write_outcome(old(store)@, file_path@, content@),
        ),
{
    match read_from_file(store, file_path) {
        Ok(_) => {
            store.insert(file_path, Node::file(content));
            Ok(())
        },
        Err(e) => Err(e),
    }
}

/// Copies the files and subdirectories of the directory `src` into the
/// directory `dest`, which is made where it is missing.
fn copy_directory(store: &mut FileStore, src: &str, dest: &str) -> (r: Result<(), CustomError>)
    ensures
        settles(
            r,
            old(store)@,
            final(store)@,
            copy_directory_outcome(old(store)@, src@, dest@),
        ),
{
    if !store.is_dir(src) {
        return Err(CustomError::of_kind(ErrorKind::NotFoundOrWrongType));
    }
    let mut members: Table<Member> = match store.get(dest) {
        Some(Node::File { .. }) => {
            return Err(CustomError::of_kind(ErrorKind::IoError));
        },
        Some(Node::Directory { members }) => members.duplicate(),
        None => Table::new(),
    };
    if let Some(Node::Directory { members: source }) = store.get(src) {
        members.absorb(source);
    }
    store.insert(dest, Node::Directory { members });
    Ok(())
}

/// Copies the text of the file `src` to `dest`.
fn copy_file(store: &mut FileStore, src: &str, dest: &str) -> (r: Result<(), CustomError>)
    ensures
        settles(r, old(store)@, final(store)@, copy_file_outcome(old(store)@, src@, dest@)),
{
    let content = match store.get(src) {
        Some(Node::File { content, .. }) => content.clone(),
        _ => {
            return Err(CustomError::of_kind(ErrorKind::NotFoundOrWrongType));
        },
    };
    let is_output = match store.get(dest) {
        Some(Node::Directory { .. }) => {
            return Err(CustomError::of_kind(ErrorKind::IoError));
        },
        Some(Node::File { is_output, .. }) => *is_output,
        None => false,
    };
    store.insert(dest, Node::File { content, is_output });
    Ok(())
}

/// Copies `src` into the backup directory `dest`, under its final
/// component, unless a backup is there already: a backup is made once and
/// never written again.
pub fn backup_from_origin(store: &mut FileStore, src: &str, dest: &str) -> (r: Result<
    (),
    CustomError,
>)
    ensures
        settles(r, old(store)@, final(store)@, backup_outcome(old(store)@, src@, dest@)),
{
    let place = backup_path(dest, src);
    // Avoid backing up modified files
    if store.contains(place.as_str()) {
        return Ok(());
    }
    if store.is_dir(src) {
        let r = copy_directory(store, src, place.as_str());
        proof {
            let s = old(store)@;
            assert(Map::<Seq<char>, MemberView>::empty().union_prefer_right(
                s[src@]->Directory_members,
            ) =~= s[src@]->Directory_members);
        }
        r
    } else if store.is_file(src) {
        copy_file(store, src, place.as_str())
    } else {
        Err(CustomError::of_kind(ErrorKind::NotFoundOrWrongType))
    }
}

/// Copies the backup of `dest` from the backup directory `src` back onto
/// `dest`. Without a backup there is nothing to restore, and the call
/// succeeds.
pub fn rollback_to_origin(store: &mut FileStore, src: &str, dest: &str) -> (r: Result<
    (),
    CustomError,
>)
    ensures
        settles(r, old(store)@, final(store)@, restore_outcome(old(store)@, src@, dest@)),
{
    let place = backup_path(src, dest);
    if !store.contains(place.as_str()) {
        return Ok(());
    }
    if store.is_dir(dest) {
        copy_directory(store, place.as_str(), dest)
    } else if store.is_file(dest) {
        copy_file(store, place.as_str(), dest)
    } else {
        Err(CustomError::of_kind(ErrorKind::NotFoundOrWrongType))
    }
}

/// What replacing `from` by `to` in the file `path` does: the file is read,
/// every match is replaced, and the whole text is written back. Where the
/// pattern has no match the file stays as it is and the call fails.
pub open spec fn replace_outcome(
    s: StoreView,
    path: Seq<char>,
    from: Seq<char>,
    to: Seq<char>,
) -> Result<StoreView, ErrorKind> {
    match read_outcome(s, path) {
        Err(kind) => Err(kind),
        Ok(content) => match rewrite_of(content, from, to) {
            Err(kind) => Err(kind),
            Ok(text) => Ok(s.insert(path, NodeView::File { content: text, is_output: false })),
        },
    }
}

/// Replaces every match of the pattern `from` in the file by `to`, and
/// fails where there is no match.
pub fn replace_regex(store: &mut FileStore, file_path: &str, from: &str, to: &str) -> (r: Result<
    (),
    CustomError,
>)
    ensures
        settles(
            r,
            old(store)@,
            final(store)@,
            replace_outcome(old(store)@, file_path@, from@, to@),
        ),
{
    let file_content = match read_from_file(store, file_path) {
        Ok(content) => content,
        Err(e) => {
            return Err(e);
        },
    };
    let modified = match rewrite(file_content.as_str(), from, to) {
        Ok(text) => text,
        Err(e) => {
            return Err(e);
        },
    };
    match write_to_file(store, file_path, modified.as_str()) {
        Ok(()) => Ok(()),
        Err(_) => Err(CustomError::new("write content failed")),
    }
}

/// Deletes every match of the pattern `from` in the file, and fails where
/// there is no match.
pub fn delete_regex(store: &mut FileStore, file_path: &str, from: &str) -> (r: Result<
    (),
    CustomError,
>)
    ensures
        settles(
            r,
            old(store)@,
            final(store)@,
            replace_outcome(old(store)@, file_path@, from@, Seq::empty()),
        ),
{
    proof {
        reveal_strlit("");
    }
    assert(""@ =~= Seq::<char>::empty());
    replace_regex(store, file_path, from, "")
}

} // verus!
