use uranus::error::{CustomError, ErrorKind};
use uranus::pattern::{rewrite, verdict};
use uranus::store::{FileStore, Member, Node};
use uranus::table::Table;
use uranus::utils::{
    backup_from_origin, delete_regex, read_from_file, replace_regex, rollback_to_origin,
    write_to_file,
};

fn text_of(store: &FileStore, path: &str) -> String {
    match store.get(path) {
        Some(Node::File { content, .. }) => content.clone(),
        Some(Node::Directory { .. }) => panic!("{} is a directory", path),
        None => panic!("{} is missing", path),
    }
}

fn member_of(store: &FileStore, path: &str, name: &str) -> Option<String> {
    match store.get(path) {
        Some(Node::Directory { members }) => match members.get(name) {
            Some(Member::File(content)) => Some(content.clone()),
            Some(Member::Folder) => panic!("{} is a subdirectory of {}", name, path),
            None => None,
        },
        _ => panic!("{} is no directory", path),
    }
}

fn has_folder(store: &FileStore, path: &str, name: &str) -> bool {
    match store.get(path) {
        Some(Node::Directory { members }) => matches!(members.get(name), Some(Member::Folder)),
        _ => panic!("{} is no directory", path),
    }
}

fn kind_of(r: Result<(), CustomError>) -> ErrorKind {
    match r {
        Ok(()) => panic!("the call succeeded"),
        Err(e) => e.kind,
    }
}

fn directory(files: &[(&str, &str)]) -> Node {
    tree(files, &[])
}

fn tree(files: &[(&str, &str)], folders: &[&str]) -> Node {
    let mut members: Table<Member> = Table::new();
    for name in folders {
        members.put(name, Member::Folder);
    }
    for (name, content) in files {
        members.put(name, Member::File(content.to_string()));
    }
    Node::Directory { members }
}

#[test]
fn table_put_get_and_overwrite() {
    let mut t: Table<String> = Table::new();
    assert!(!t.contains("a"));
    assert!(t.get("a").is_none());
    t.put("a", "1".to_string());
    t.put("b", "2".to_string());
    t.put("a", "3".to_string());
    assert!(t.contains("a"));
    assert_eq!(t.get("a"), Some(&"3".to_string()));
    assert_eq!(t.get("b"), Some(&"2".to_string()));
    let mut keys = t.keys();
    keys.sort();
    assert_eq!(keys, vec!["a".to_string(), "b".to_string()]);
}

#[test]
fn table_absorb_prefers_the_other_table() {
    let mut t: Table<String> = Table::new();
    t.put("a", "old".to_string());
    t.put("b", "kept".to_string());
    let mut other: Table<String> = Table::new();
    other.put("a", "new".to_string());
    other.put("c", "added".to_string());
    t.absorb(&other);
    assert_eq!(t.get("a"), Some(&"new".to_string()));
    assert_eq!(t.get("b"), Some(&"kept".to_string()));
    assert_eq!(t.get("c"), Some(&"added".to_string()));
    let copy = t.duplicate();
    assert_eq!(copy.get("a"), Some(&"new".to_string()));
    assert_eq!(copy.keys().len(), 3);
}

#[test]
fn store_tells_files_from_directories() {
    let mut store = FileStore::new();
    assert!(!store.contains("a.lua"));
    store.insert("a.lua", Node::file("x"));
    store.insert("dir", directory(&[("f", "1")]));
    assert!(store.contains("a.lua"));
    assert!(store.is_file("a.lua"));
    assert!(!store.is_dir("a.lua"));
    assert!(store.is_dir("dir"));
    assert!(!store.is_file("dir"));
    assert!(!store.is_file("missing"));
    assert!(!store.is_dir("missing"));
    assert!(store.get("missing").is_none());
}

#[test]
fn node_duplicate_keeps_the_value() {
    let file = Node::File { content: "x".to_string(), is_output: true };
    match file.duplicate() {
        Node::File { content, is_output } => {
            assert_eq!(content, "x");
            assert!(is_output);
        }
        Node::Directory { .. } => panic!("a file became a directory"),
    }
    match directory(&[("f", "1")]).duplicate() {
        Node::Directory { members } => {
            assert!(matches!(members.get("f"), Some(Member::File(text)) if text == "1"))
        }
        Node::File { .. } => panic!("a directory became a file"),
    }
}

#[test]
fn read_gives_the_content() {
    let mut store = FileStore::new();
    store.insert("a.lua", Node::file("Weight = 0.05"));
    assert_eq!(read_from_file(&store, "a.lua").unwrap(), "Weight = 0.05");
}

#[test]
fn read_of_missing_file_is_io_error() {
    let store = FileStore::new();
    assert_eq!(read_from_file(&store, "a.lua").unwrap_err().kind, ErrorKind::IoError);
}

#[test]
fn read_of_directory_is_io_error() {
    let mut store = FileStore::new();
    store.insert("dir", directory(&[]));
    assert_eq!(read_from_file(&store, "dir").unwrap_err().kind, ErrorKind::IoError);
}

#[test]
fn read_of_output_stream_is_same_file_conflict() {
    let mut store = FileStore::new();
    store.insert("out.log", Node::File { content: "x".to_string(), is_output: true });
    let e = read_from_file(&store, "out.log").unwrap_err();
    assert_eq!(e.kind, ErrorKind::SameFileConflict);
    assert_eq!(e.to_string(), "reading and writing to the same file");
}

#[test]
fn write_replaces_the_whole_content() {
    let mut store = FileStore::new();
    store.insert("a.lua", Node::file("long old content"));
    write_to_file(&mut store, "a.lua", "new").unwrap();
    assert_eq!(text_of(&store, "a.lua"), "new");
}

#[test]
fn write_needs_the_file_to_be_there() {
    let mut store = FileStore::new();
    assert_eq!(kind_of(write_to_file(&mut store, "a.lua", "new")), ErrorKind::IoError);
    assert!(!store.contains("a.lua"));
}

#[test]
fn write_to_output_stream_is_same_file_conflict() {
    let mut store = FileStore::new();
    store.insert("out.log", Node::File { content: "x".to_string(), is_output: true });
    assert_eq!(kind_of(write_to_file(&mut store, "out.log", "y")), ErrorKind::SameFileConflict);
    match store.get("out.log") {
        Some(Node::File { content, is_output }) => {
            assert_eq!(content, "x");
            assert!(*is_output);
        }
        _ => panic!("the file is gone"),
    }
}

#[test]
fn verdict_tells_the_three_answers_apart() {
    assert!(verdict(Some(true)).is_ok());
    assert_eq!(verdict(Some(false)).unwrap_err().kind, ErrorKind::NoMatch);
    assert_eq!(verdict(None).unwrap_err().kind, ErrorKind::Underlying);
}

#[test]
fn rewrite_replaces_every_match() {
    assert_eq!(rewrite("a1 a2 b3 a4", r"a\d", "x").unwrap(), "x x b3 x");
}

#[test]
fn rewrite_without_match_is_no_match() {
    let e = rewrite("nothing here", r"a\d", "x").unwrap_err();
    assert_eq!(e.kind, ErrorKind::NoMatch);
    assert_eq!(e.to_string(), "regex not match!");
}

#[test]
fn rewrite_with_invalid_pattern_is_underlying() {
    assert_eq!(rewrite("foo(bar", "foo(bar", "x").unwrap_err().kind, ErrorKind::Underlying);
}

#[test]
fn rewrite_is_not_greedy_where_the_pattern_says_so() {
    let text = "NumFakeDunks = { Min = 1, Max = 3 }, Other = { 1 },";
    assert_eq!(
        rewrite(text, r"NumFakeDunks.*?\},", "NumFakeDunks = { Min = 0, Max = 0 },").unwrap(),
        "NumFakeDunks = { Min = 0, Max = 0 }, Other = { 1 },"
    );
}

#[test]
fn rewrite_matches_across_lines_where_the_pattern_says_so() {
    let text = "\tif validRarities.Rare and x then\n\t\tchosenRarity = \"Rare\"\n\t\tpick( Rare )\nend";
    assert_eq!(rewrite(text, r"\tif validRarities.Rare.*?\n.*?\n.*?\)", "X").unwrap(), "X\nend");
}

#[test]
fn rewrite_on_the_same_text_gives_the_same_text() {
    let first = rewrite("Weight = 0.05, Weight = 0.05", "Weight = 0.05", "Weight = 10").unwrap();
    let second = rewrite("Weight = 0.05, Weight = 0.05", "Weight = 0.05", "Weight = 10").unwrap();
    assert_eq!(first, "Weight = 10, Weight = 10");
    assert_eq!(first, second);
}

#[test]
fn replace_rewrites_the_file() {
    let mut store = FileStore::new();
    store.insert("a.lua", Node::file("CostAmount = 5\nCostAmount = 7\n"));
    store.insert("b.lua", Node::file("CostAmount = 5"));
    replace_regex(&mut store, "a.lua", "CostAmount = ", "CostAmount = -").unwrap();
    assert_eq!(text_of(&store, "a.lua"), "CostAmount = -5\nCostAmount = -7\n");
    assert_eq!(text_of(&store, "b.lua"), "CostAmount = 5");
}

#[test]
fn replace_again_on_the_result_is_not_the_same_as_once() {
    let mut store = FileStore::new();
    store.insert("a.lua", Node::file("CostAmount = 5"));
    replace_regex(&mut store, "a.lua", "CostAmount = ", "CostAmount = -").unwrap();
    replace_regex(&mut store, "a.lua", "CostAmount = ", "CostAmount = -").unwrap();
    assert_eq!(text_of(&store, "a.lua"), "CostAmount = --5");
}

#[test]
fn replace_without_match_leaves_the_file() {
    let mut store = FileStore::new();
    store.insert("a.lua", Node::file("Weight = 10"));
    let r = replace_regex(&mut store, "a.lua", "Weight = 0.05", "Weight = 10");
    assert_eq!(kind_of(r), ErrorKind::NoMatch);
    assert_eq!(text_of(&store, "a.lua"), "Weight = 10");
}

#[test]
fn replace_on_missing_file_is_io_error() {
    let mut store = FileStore::new();
    let r = replace_regex(&mut store, "a.lua", "x", "y");
    assert_eq!(kind_of(r), ErrorKind::IoError);
}

#[test]
fn replace_reads_before_it_compiles() {
    let mut store = FileStore::new();
    assert_eq!(kind_of(replace_regex(&mut store, "a.lua", "foo(bar", "y")), ErrorKind::IoError);
    store.insert("a.lua", Node::file("foo(bar"));
    assert_eq!(kind_of(replace_regex(&mut store, "a.lua", "foo(bar", "y")), ErrorKind::Underlying);
    assert_eq!(text_of(&store, "a.lua"), "foo(bar");
}

#[test]
fn replace_on_output_stream_is_same_file_conflict() {
    let mut store = FileStore::new();
    store.insert("out.log", Node::File { content: "x".to_string(), is_output: true });
    assert_eq!(kind_of(replace_regex(&mut store, "out.log", "x", "y")), ErrorKind::SameFileConflict);
}

#[test]
fn delete_removes_every_match() {
    let mut store = FileStore::new();
    store.insert(
        "RoomManager.lua",
        Node::file("if a and IsFishingEligible( currentRun, currentRoom ) then"),
    );
    delete_regex(
        &mut store,
        "RoomManager.lua",
        r"and IsFishingEligible\( currentRun, currentRoom \)",
    )
    .unwrap();
    assert_eq!(text_of(&store, "RoomManager.lua"), "if a  then");
}

#[test]
fn delete_without_match_leaves_the_file() {
    let mut store = FileStore::new();
    store.insert("a.lua", Node::file("abc"));
    assert_eq!(kind_of(delete_regex(&mut store, "a.lua", "xyz")), ErrorKind::NoMatch);
    assert_eq!(text_of(&store, "a.lua"), "abc");
}

#[test]
fn backup_copies_a_file_under_its_name() {
    let mut store = FileStore::new();
    store.insert("hades/Content/FishingData.lua", Node::file("Weight = 0.05"));
    backup_from_origin(&mut store, "hades/Content/FishingData.lua", "./Eden").unwrap();
    assert_eq!(text_of(&store, "./Eden/FishingData.lua"), "Weight = 0.05");
    assert_eq!(text_of(&store, "hades/Content/FishingData.lua"), "Weight = 0.05");
}

#[test]
fn backup_copies_a_directory_with_its_files() {
    let mut store = FileStore::new();
    store.insert("hades/Scripts", directory(&[("a.lua", "1"), ("sub/b.lua", "2")]));
    backup_from_origin(&mut store, "hades/Scripts", "Eden").unwrap();
    assert!(store.is_dir("Eden/Scripts"));
    assert_eq!(member_of(&store, "Eden/Scripts", "a.lua"), Some("1".to_string()));
    assert_eq!(member_of(&store, "Eden/Scripts", "sub/b.lua"), Some("2".to_string()));
}

#[test]
fn backup_of_missing_source_is_not_found() {
    let mut store = FileStore::new();
    let r = backup_from_origin(&mut store, "hades/FishingData.lua", "Eden");
    assert_eq!(kind_of(r), ErrorKind::NotFoundOrWrongType);
    assert!(!store.contains("Eden/FishingData.lua"));
}

#[test]
fn backup_that_is_there_is_success_even_without_source() {
    let mut store = FileStore::new();
    store.insert("Eden/FishingData.lua", Node::file("saved"));
    backup_from_origin(&mut store, "hades/FishingData.lua", "Eden").unwrap();
    assert_eq!(text_of(&store, "Eden/FishingData.lua"), "saved");
}

#[test]
fn backup_does_not_copy_the_output_mark() {
    let mut store = FileStore::new();
    store.insert("out.log", Node::File { content: "x".to_string(), is_output: true });
    backup_from_origin(&mut store, "out.log", "Eden").unwrap();
    match store.get("Eden/out.log") {
        Some(Node::File { content, is_output }) => {
            assert_eq!(content, "x");
            assert!(!*is_output);
        }
        _ => panic!("no backup"),
    }
}

#[test]
fn backup_twice_keeps_the_first_copy() {
    let mut store = FileStore::new();
    store.insert("hades/FishingData.lua", Node::file("first"));
    backup_from_origin(&mut store, "hades/FishingData.lua", "Eden").unwrap();
    write_to_file(&mut store, "hades/FishingData.lua", "second").unwrap();
    backup_from_origin(&mut store, "hades/FishingData.lua", "Eden").unwrap();
    assert_eq!(text_of(&store, "Eden/FishingData.lua"), "first");
    assert_eq!(text_of(&store, "hades/FishingData.lua"), "second");
}

#[test]
fn backup_then_restore_brings_the_bytes_back() {
    let mut store = FileStore::new();
    store.insert("hades/FishingData.lua", Node::file("Weight = 0.05\n-- \u{3b1}\n"));
    backup_from_origin(&mut store, "hades/FishingData.lua", "Eden").unwrap();
    write_to_file(&mut store, "hades/FishingData.lua", "garbage").unwrap();
    rollback_to_origin(&mut store, "Eden", "hades/FishingData.lua").unwrap();
    assert_eq!(text_of(&store, "hades/FishingData.lua"), "Weight = 0.05\n-- \u{3b1}\n");
    assert_eq!(text_of(&store, "Eden/FishingData.lua"), "Weight = 0.05\n-- \u{3b1}\n");
}

#[test]
fn restore_without_backup_is_success_and_changes_nothing() {
    let mut store = FileStore::new();
    store.insert("hades/FishingData.lua", Node::file("edited"));
    rollback_to_origin(&mut store, "Eden", "hades/FishingData.lua").unwrap();
    assert_eq!(text_of(&store, "hades/FishingData.lua"), "edited");
    rollback_to_origin(&mut store, "Eden", "hades/Missing.lua").unwrap();
    assert!(!store.contains("hades/Missing.lua"));
}

#[test]
fn restore_onto_missing_target_is_not_found() {
    let mut store = FileStore::new();
    store.insert("Eden/FishingData.lua", Node::file("saved"));
    let r = rollback_to_origin(&mut store, "Eden", "hades/FishingData.lua");
    assert_eq!(kind_of(r), ErrorKind::NotFoundOrWrongType);
    assert!(!store.contains("hades/FishingData.lua"));
}

#[test]
fn restore_of_the_wrong_sort_is_not_found() {
    let mut store = FileStore::new();
    store.insert("Eden/Scripts", Node::file("a file"));
    store.insert("hades/Scripts", directory(&[("a.lua", "1")]));
    let r = rollback_to_origin(&mut store, "Eden", "hades/Scripts");
    assert_eq!(kind_of(r), ErrorKind::NotFoundOrWrongType);
    assert_eq!(member_of(&store, "hades/Scripts", "a.lua"), Some("1".to_string()));

    let mut store = FileStore::new();
    store.insert("Eden/a.lua", directory(&[]));
    store.insert("hades/a.lua", Node::file("x"));
    let r = rollback_to_origin(&mut store, "Eden", "hades/a.lua");
    assert_eq!(kind_of(r), ErrorKind::NotFoundOrWrongType);
    assert_eq!(text_of(&store, "hades/a.lua"), "x");
}

#[test]
fn restore_of_a_directory_brings_saved_files_back_and_keeps_new_ones() {
    let mut store = FileStore::new();
    store.insert("hades/Scripts", directory(&[("a.lua", "1"), ("b.lua", "2")]));
    backup_from_origin(&mut store, "hades/Scripts", "Eden").unwrap();
    store.insert("hades/Scripts", directory(&[("a.lua", "changed"), ("c.lua", "3")]));
    rollback_to_origin(&mut store, "Eden", "hades/Scripts").unwrap();
    assert_eq!(member_of(&store, "hades/Scripts", "a.lua"), Some("1".to_string()));
    assert_eq!(member_of(&store, "hades/Scripts", "b.lua"), Some("2".to_string()));
    assert_eq!(member_of(&store, "hades/Scripts", "c.lua"), Some("3".to_string()));
}

#[test]
fn restore_keeps_the_output_mark_of_the_target() {
    let mut store = FileStore::new();
    store.insert("Eden/out.log", Node::file("saved"));
    store.insert("out.log", Node::File { content: "x".to_string(), is_output: true });
    rollback_to_origin(&mut store, "Eden", "out.log").unwrap();
    match store.get("out.log") {
        Some(Node::File { content, is_output }) => {
            assert_eq!(content, "saved");
            assert!(*is_output);
        }
        _ => panic!("the file is gone"),
    }
}

#[test]
fn custom_error_carries_its_text() {
    let e = CustomError::new("disk full");
    assert_eq!(e.kind, ErrorKind::Underlying);
    assert_eq!(e.message, "disk full");
    assert_eq!(e.to_string(), "disk full");
    let e = CustomError::of_kind(ErrorKind::NeedsRollback);
    assert_eq!(e.kind, ErrorKind::NeedsRollback);
    assert_eq!(e.to_string(), "needs to rollback before apply");
    assert_eq!(CustomError::of_kind(ErrorKind::IoError).kind, ErrorKind::IoError);
    assert_eq!(
        CustomError::of_kind(ErrorKind::NotFoundOrWrongType).kind,
        ErrorKind::NotFoundOrWrongType
    );
}

#[test]
fn store_lists_each_path_once() {
    let mut store = FileStore::new();
    assert!(store.paths().is_empty());
    store.insert("b.lua", Node::file("1"));
    store.insert("a.lua", Node::file("2"));
    store.insert("b.lua", Node::file("3"));
    let mut paths = store.paths();
    paths.sort();
    assert_eq!(paths, vec!["a.lua".to_string(), "b.lua".to_string()]);
}

#[test]
fn store_duplicate_is_a_store_of_its_own() {
    let mut store = FileStore::new();
    store.insert("a.lua", Node::file("1"));
    store.insert("dir", directory(&[("f", "x")]));
    let copy = store.duplicate();
    store.insert("a.lua", Node::file("2"));
    assert_eq!(text_of(&copy, "a.lua"), "1");
    assert_eq!(text_of(&store, "a.lua"), "2");
    assert_eq!(member_of(&copy, "dir", "f"), Some("x".to_string()));
    assert_eq!(copy.paths().len(), 2);
}

#[test]
fn backup_copies_subdirectories_too() {
    let mut store = FileStore::new();
    store.insert(
        "hades/Scripts",
        tree(&[("a.lua", "1"), ("sub/b.lua", "2")], &["sub", "empty", "sub/deep"]),
    );
    backup_from_origin(&mut store, "hades/Scripts", "Eden").unwrap();
    assert!(has_folder(&store, "Eden/Scripts", "sub"));
    assert!(has_folder(&store, "Eden/Scripts", "empty"));
    assert!(has_folder(&store, "Eden/Scripts", "sub/deep"));
    assert_eq!(member_of(&store, "Eden/Scripts", "a.lua"), Some("1".to_string()));
    assert_eq!(member_of(&store, "Eden/Scripts", "sub/b.lua"), Some("2".to_string()));
    match store.get("Eden/Scripts") {
        Some(Node::Directory { members }) => assert_eq!(members.keys().len(), 5),
        _ => panic!("no backup"),
    }
    assert!(has_folder(&store, "hades/Scripts", "empty"));
    assert_eq!(member_of(&store, "hades/Scripts", "a.lua"), Some("1".to_string()));
}

#[test]
fn restore_brings_subdirectories_back() {
    let mut store = FileStore::new();
    store.insert("hades/Scripts", tree(&[("a.lua", "1")], &["empty"]));
    backup_from_origin(&mut store, "hades/Scripts", "Eden").unwrap();
    store.insert("hades/Scripts", tree(&[("a.lua", "changed")], &["new"]));
    rollback_to_origin(&mut store, "Eden", "hades/Scripts").unwrap();
    assert!(has_folder(&store, "hades/Scripts", "empty"));
    assert!(has_folder(&store, "hades/Scripts", "new"));
    assert_eq!(member_of(&store, "hades/Scripts", "a.lua"), Some("1".to_string()));
}
