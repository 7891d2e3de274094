use uranus::components::{
    ApplyType, Applyable, Backup, Charism, Delete, Event, Pitho, Replace, RollBack, Strategy,
};
use uranus::error::ErrorKind;
use uranus::store::{FileStore, Node};
use uranus::utils::write_to_file;

fn content(store: &FileStore, path: &str) -> String {
    match store.get(path) {
        Some(Node::File { content, .. }) => content.clone(),
        _ => panic!("{} is no file", path),
    }
}

fn lines(log: &[Event]) -> Vec<String> {
    log.iter()
        .map(|event| match event {
            Event::Done { feature, file_path, kind } => {
                format!("[{}]({}) apply {:?} success!", feature, file_path, kind)
            }
            Event::Failed { feature, file_path, kind, error } => {
                format!("[{}]({}) apply {:?} failed, {:?}", feature, file_path, kind, error)
            }
            Event::Over { feature } => format!("<-{}->", feature),
        })
        .collect()
}

fn replace(path: &str, from: &str, to: &str) -> Pitho {
    Pitho::Replace(Replace::new(path.to_string(), from, to))
}

#[test]
fn operations_tell_their_sort_and_file() {
    let backup = Backup::new("a.lua".to_string(), "Eden");
    assert_eq!(backup.get_type(), ApplyType::Backup);
    assert_eq!(backup.get_file_path(), "a.lua");
    assert_eq!(backup.to, "Eden");
    let marker = RollBack::new("Eden".to_string());
    assert_eq!(marker.get_type(), ApplyType::RollBack);
    assert_eq!(marker.get_file_path(), "Eden");
    let replace = Replace::new("b.lua".to_string(), "x", "y");
    assert_eq!(replace.get_type(), ApplyType::Replace);
    assert_eq!(replace.get_file_path(), "b.lua");
    assert_eq!(replace.from, "x");
    assert_eq!(replace.to, "y");
    let delete = Delete::new("c.lua".to_string(), "z");
    assert_eq!(delete.get_type(), ApplyType::Delete);
    assert_eq!(delete.get_file_path(), "c.lua");
    assert_eq!(delete.from, "z");
    let any = Pitho::Delete(delete);
    assert_eq!(any.get_type(), ApplyType::Delete);
    assert_eq!(any.get_file_path(), "c.lua");
    assert_eq!(any.duplicate().get_file_path(), "c.lua");
}

#[test]
fn rollback_marker_cannot_be_applied() {
    let mut store = FileStore::new();
    store.insert("Eden", Node::file("x"));
    let e = RollBack::new("Eden".to_string()).do_apply(&mut store).unwrap_err();
    assert_eq!(e.kind, ErrorKind::NeedsRollback);
    assert_eq!(e.to_string(), "needs to rollback before apply");
    assert_eq!(content(&store, "Eden"), "x");
}

#[test]
fn backup_operation_copies_into_its_directory() {
    let mut store = FileStore::new();
    store.insert("hades/a.lua", Node::file("x"));
    Backup::new("hades/a.lua".to_string(), "Safe").do_apply(&mut store).unwrap();
    assert_eq!(content(&store, "Safe/a.lua"), "x");
}

#[test]
fn replace_and_delete_operations_rewrite_their_file() {
    let mut store = FileStore::new();
    store.insert("a.lua", Node::file("one two one"));
    Replace::new("a.lua".to_string(), "one", "1").do_apply(&mut store).unwrap();
    assert_eq!(content(&store, "a.lua"), "1 two 1");
    Delete::new("a.lua".to_string(), " two").do_apply(&mut store).unwrap();
    assert_eq!(content(&store, "a.lua"), "1 1");
    let e = Pitho::Delete(Delete::new("a.lua".to_string(), "three")).do_apply(&mut store);
    assert_eq!(e.unwrap_err().kind, ErrorKind::NoMatch);
    assert_eq!(content(&store, "a.lua"), "1 1");
}

#[test]
fn strategy_starts_with_the_rollback_marker() {
    let mut strategy = Strategy::new("./Eden");
    assert_eq!(strategy.pithos.len(), 1);
    assert_eq!(strategy.pithos[0].get_type(), ApplyType::RollBack);
    assert_eq!(strategy.pithos[0].get_file_path(), "./Eden");
    strategy.add(replace("a.lua", "x", "y"));
    assert_eq!(strategy.pithos.len(), 2);
    assert_eq!(strategy.pithos[1].get_type(), ApplyType::Replace);
    assert_eq!(strategy.duplicate().pithos.len(), 2);
}

#[test]
fn new_feature_has_only_the_marker() {
    let c = Charism::new("Fishing", "Catch Better Fish", "Increase biomefish weight.");
    assert_eq!(c.group(), "Fishing");
    assert_eq!(c.name(), "Catch Better Fish");
    assert_eq!(c.description(), "Increase biomefish weight.");
    assert_eq!(c.backup_home(), "./Eden");
    assert_eq!(c.strategy().pithos.len(), 1);
    assert_eq!(c.strategy().pithos[0].get_type(), ApplyType::RollBack);
    assert!(c.touched_files().is_empty());
    assert!(c.watched_paths().is_empty());
}

#[test]
fn show_gives_one_line() {
    let c = Charism::new("Fishing", "Catch Better Fish", "Increase biomefish weight.");
    assert_eq!(
        c.show(),
        "The Catch Better Fish belongs to the Fishing for Increase biomefish weight."
    );
}

#[test]
fn add_backs_the_file_up_at_once() {
    let mut store = FileStore::new();
    store.insert("hades/FishingData.lua", Node::file("Weight = 0.05"));
    let mut c = Charism::new("g", "n", "d");
    c.add(replace("hades/FishingData.lua", "Weight = 0.05", "Weight = 10"), &mut store).unwrap();
    assert_eq!(content(&store, "./Eden/FishingData.lua"), "Weight = 0.05");
    assert_eq!(content(&store, "hades/FishingData.lua"), "Weight = 0.05");
    assert_eq!(c.touched_files(), &vec!["hades/FishingData.lua".to_string()]);
    assert_eq!(c.strategy().pithos.len(), 2);
}

#[test]
fn add_lists_each_file_once_in_first_seen_order() {
    let mut store = FileStore::new();
    store.insert("b.lua", Node::file("b"));
    store.insert("a.lua", Node::file("a"));
    let mut c = Charism::new("g", "n", "d");
    c.add(replace("b.lua", "b", "B"), &mut store).unwrap();
    c.add(replace("a.lua", "a", "A"), &mut store).unwrap();
    c.add(Pitho::Delete(Delete::new("b.lua".to_string(), "x")), &mut store).unwrap();
    c.add(replace("a.lua", "A", "a"), &mut store).unwrap();
    assert_eq!(c.touched_files(), &vec!["b.lua".to_string(), "a.lua".to_string()]);
    assert_eq!(c.strategy().pithos.len(), 5);
    assert_eq!(
        c.watched_paths(),
        vec![
            "b.lua".to_string(),
            "./Eden/b.lua".to_string(),
            "a.lua".to_string(),
            "./Eden/a.lua".to_string(),
            "b.lua".to_string(),
            "a.lua".to_string(),
            "b.lua".to_string(),
            "a.lua".to_string()
        ]
    );
    c.add(Pitho::Backup(Backup::new("dir/c.lua".to_string(), "Safe")), &mut store).unwrap();
    let watched = c.watched_paths();
    assert_eq!(watched.len(), 10);
    assert_eq!(watched[8], "dir/c.lua");
    assert_eq!(watched[9], "Safe/c.lua");
}

#[test]
fn add_of_backup_or_marker_touches_nothing() {
    let mut store = FileStore::new();
    let mut c = Charism::new("g", "n", "d");
    c.add(Pitho::Backup(Backup::new("missing.lua".to_string(), "Eden")), &mut store).unwrap();
    c.add(Pitho::RollBack(RollBack::new("x".to_string())), &mut store).unwrap();
    assert!(c.touched_files().is_empty());
    assert_eq!(c.strategy().pithos.len(), 3);
    assert!(!store.contains("Eden/missing.lua"));
}

#[test]
fn add_is_refused_where_the_backup_fails() {
    let mut store = FileStore::new();
    let mut c = Charism::new("g", "n", "d");
    let e = c.add(replace("missing.lua", "x", "y"), &mut store).unwrap_err();
    assert_eq!(e.kind, ErrorKind::NotFoundOrWrongType);
    assert!(c.touched_files().is_empty());
    assert_eq!(c.strategy().pithos.len(), 1);
}

#[test]
fn add_uses_the_backup_home_that_is_set() {
    let mut store = FileStore::new();
    store.insert("a.lua", Node::file("a"));
    let mut c = Charism::new("g", "n", "d");
    c.set_backup_home("Safe");
    assert_eq!(c.backup_home(), "Safe");
    c.add(replace("a.lua", "a", "b"), &mut store).unwrap();
    assert_eq!(content(&store, "Safe/a.lua"), "a");
    assert!(!store.contains("./Eden/a.lua"));
}

#[test]
fn apply_runs_the_operations_in_order() {
    let mut store = FileStore::new();
    store.insert("a.lua", Node::file("one"));
    let mut c = Charism::new("g", "n", "d");
    c.add(replace("a.lua", "one", "two"), &mut store).unwrap();
    c.add(replace("a.lua", "two", "three"), &mut store).unwrap();
    c.apply(&mut store).unwrap();
    assert_eq!(content(&store, "a.lua"), "three");
}

#[test]
fn apply_twice_starts_from_the_backup() {
    let mut store = FileStore::new();
    store.insert("StoreData.lua", Node::file("CostAmount = 5"));
    let mut c = Charism::new("g", "n", "d");
    c.add(replace("StoreData.lua", "CostAmount = ", "CostAmount = -"), &mut store).unwrap();
    c.apply(&mut store).unwrap();
    c.apply(&mut store).unwrap();
    assert_eq!(content(&store, "StoreData.lua"), "CostAmount = -5");
}

#[test]
fn apply_then_rollback_restores_the_file() {
    let mut store = FileStore::new();
    store.insert("a.lua", Node::file("one"));
    let mut c = Charism::new("g", "n", "d");
    c.add(replace("a.lua", "one", "two"), &mut store).unwrap();
    c.apply(&mut store).unwrap();
    assert_eq!(content(&store, "a.lua"), "two");
    c.rollback(&mut store, true).unwrap();
    assert_eq!(content(&store, "a.lua"), "one");
    c.rollback(&mut store, false).unwrap();
    assert_eq!(content(&store, "a.lua"), "one");
}

#[test]
fn apply_failure_rolls_back_what_was_done() {
    let mut store = FileStore::new();
    store.insert("first.lua", Node::file("alpha"));
    store.insert("second.lua", Node::file("corrupted"));
    let mut c = Charism::new("g", "n", "d");
    c.add(replace("first.lua", "alpha", "beta"), &mut store).unwrap();
    c.add(replace("second.lua", "gamma", "delta"), &mut store).unwrap();
    c.add(replace("first.lua", "beta", "never"), &mut store).unwrap();
    let e = c.apply(&mut store).unwrap_err();
    assert_eq!(e.kind, ErrorKind::NoMatch);
    assert_eq!(content(&store, "first.lua"), "alpha");
    assert_eq!(content(&store, "second.lua"), "corrupted");
}

#[test]
fn apply_with_invalid_pattern_fails_and_rolls_back() {
    let mut store = FileStore::new();
    store.insert("a.lua", Node::file("alpha"));
    let mut c = Charism::new("g", "n", "d");
    c.add(replace("a.lua", "alpha", "beta"), &mut store).unwrap();
    c.add(replace("a.lua", "(", "x"), &mut store).unwrap();
    let e = c.apply(&mut store).unwrap_err();
    assert_eq!(e.kind, ErrorKind::Underlying);
    assert_eq!(content(&store, "a.lua"), "alpha");
}

#[test]
fn apply_fails_where_the_leading_rollback_fails() {
    let mut store = FileStore::new();
    store.insert("a.lua", Node::file("alpha"));
    let mut c = Charism::new("g", "n", "d");
    c.add(replace("a.lua", "alpha", "beta"), &mut store).unwrap();
    store.insert("a.lua", Node::Directory { members: uranus::table::Table::new() });
    let e = c.apply(&mut store).unwrap_err();
    assert_eq!(e.kind, ErrorKind::NotFoundOrWrongType);
    assert!(store.is_dir("a.lua"));
}

#[test]
fn apply_returns_the_error_of_the_operation_when_the_rollback_fails_too() {
    let mut store = FileStore::new();
    store.insert("d2/n", Node::file("saved elsewhere"));
    store.insert("d1/n", Node::file("text"));
    let mut c = Charism::new("g", "n", "d");
    c.add(Pitho::Backup(Backup::new("d2/n".to_string(), "./Eden")), &mut store).unwrap();
    c.add(replace("d1/n", "text", "other"), &mut store).unwrap();
    assert_eq!(c.touched_files(), &vec!["d1/n".to_string()]);
    let mut bare = FileStore::new();
    bare.insert("d2/n", Node::file("saved elsewhere"));
    let mut log = Vec::new();
    let e = c.apply_logged(&mut bare, &mut log).unwrap_err();
    assert_eq!(e.kind, ErrorKind::IoError);
    assert_eq!(e.to_string(), "file cannot be read or written");
    assert_eq!(lines(&log), vec![
        "[n](d1/n) apply RollBack success!",
        "[n](d2/n) apply Backup success!",
        "[n](d1/n) apply Replace failed, IoError",
        "[n](d1/n) apply RollBack failed, NotFoundOrWrongType",
    ]);
    assert_eq!(content(&bare, "./Eden/n"), "saved elsewhere");
    assert!(!bare.contains("d1/n"));
}

#[test]
fn apply_with_stray_marker_rolls_back_in_the_middle() {
    let mut store = FileStore::new();
    store.insert("a.lua", Node::file("one"));
    let mut c = Charism::new("g", "n", "d");
    c.add(replace("a.lua", "one", "two"), &mut store).unwrap();
    c.add(Pitho::RollBack(RollBack::new("x".to_string())), &mut store).unwrap();
    c.add(replace("a.lua", "one", "three"), &mut store).unwrap();
    c.apply(&mut store).unwrap();
    assert_eq!(content(&store, "a.lua"), "three");
}

#[test]
fn rollback_stops_at_the_first_file_that_fails() {
    let mut store = FileStore::new();
    store.insert("a.lua", Node::file("a"));
    store.insert("b.lua", Node::file("b"));
    store.insert("c.lua", Node::file("c"));
    let mut c = Charism::new("g", "n", "d");
    c.add(replace("a.lua", "a", "A"), &mut store).unwrap();
    c.add(replace("b.lua", "b", "B"), &mut store).unwrap();
    c.add(replace("c.lua", "c", "C"), &mut store).unwrap();
    c.apply(&mut store).unwrap();
    store.insert("b.lua", Node::Directory { members: uranus::table::Table::new() });
    let e = c.rollback(&mut store, true).unwrap_err();
    assert_eq!(e.kind, ErrorKind::NotFoundOrWrongType);
    assert_eq!(content(&store, "a.lua"), "a");
    assert!(store.is_dir("b.lua"));
    assert_eq!(content(&store, "c.lua"), "C");
}

#[test]
fn rollback_without_backup_leaves_the_file() {
    let mut store = FileStore::new();
    store.insert("a.lua", Node::file("a"));
    let mut c = Charism::new("g", "n", "d");
    c.add(replace("a.lua", "a", "A"), &mut store).unwrap();
    let mut bare = FileStore::new();
    bare.insert("a.lua", Node::file("edited"));
    c.rollback(&mut bare, true).unwrap();
    assert_eq!(content(&bare, "a.lua"), "edited");
}

#[test]
fn clear_drops_operations_and_keeps_backups() {
    let mut store = FileStore::new();
    store.insert("a.lua", Node::file("a"));
    let mut c = Charism::new("g", "n", "d");
    c.set_backup_home("Safe");
    c.add(replace("a.lua", "a", "A"), &mut store).unwrap();
    c.clear();
    assert!(c.touched_files().is_empty());
    assert_eq!(c.strategy().pithos.len(), 1);
    assert_eq!(c.strategy().pithos[0].get_file_path(), "Safe");
    assert_eq!(c.name(), "n");
    assert_eq!(content(&store, "Safe/a.lua"), "a");
}

#[test]
fn to_owned_copies_the_feature() {
    let mut store = FileStore::new();
    store.insert("a.lua", Node::file("a"));
    let mut c = Charism::new("g", "n", "d");
    c.add(replace("a.lua", "a", "A"), &mut store).unwrap();
    let copy = c.to_owned();
    assert_eq!(copy.group(), "g");
    assert_eq!(copy.name(), "n");
    assert_eq!(copy.description(), "d");
    assert_eq!(copy.touched_files(), c.touched_files());
    assert_eq!(copy.strategy().pithos.len(), 2);
    copy.apply(&mut store).unwrap();
    assert_eq!(content(&store, "a.lua"), "A");
}

#[test]
fn edits_between_add_and_apply_are_undone_by_the_marker() {
    let mut store = FileStore::new();
    store.insert("a.lua", Node::file("one"));
    let mut c = Charism::new("g", "n", "d");
    c.add(replace("a.lua", "one", "two"), &mut store).unwrap();
    write_to_file(&mut store, "a.lua", "one one").unwrap();
    c.apply(&mut store).unwrap();
    assert_eq!(content(&store, "a.lua"), "two");
}

#[test]
fn backups_of_files_with_one_name_collide() {
    let mut store = FileStore::new();
    store.insert("one/Data.lua", Node::file("first"));
    store.insert("two/Data.lua", Node::file("second"));
    let mut c = Charism::new("g", "n", "d");
    c.add(replace("one/Data.lua", "first", "1"), &mut store).unwrap();
    c.add(replace("two/Data.lua", "second", "2"), &mut store).unwrap();
    assert_eq!(content(&store, "./Eden/Data.lua"), "first");
    c.rollback(&mut store, true).unwrap();
    assert_eq!(content(&store, "one/Data.lua"), "first");
    assert_eq!(content(&store, "two/Data.lua"), "first");
}

#[test]
fn apply_leaves_other_files_alone() {
    let mut store = FileStore::new();
    store.insert("a.lua", Node::file("one"));
    store.insert("b.lua", Node::file("one"));
    store.insert("./Eden/b.lua", Node::file("saved"));
    let mut c = Charism::new("g", "n", "d");
    c.add(replace("a.lua", "one", "two"), &mut store).unwrap();
    c.apply(&mut store).unwrap();
    assert_eq!(content(&store, "b.lua"), "one");
    assert_eq!(content(&store, "./Eden/b.lua"), "saved");
    assert_eq!(content(&store, "./Eden/a.lua"), "one");
    c.rollback(&mut store, true).unwrap();
    assert_eq!(content(&store, "b.lua"), "one");
}

#[test]
fn apply_needs_only_the_watched_paths() {
    let mut whole = FileStore::new();
    whole.insert("a.lua", Node::file("one"));
    whole.insert("b.lua", Node::file("two"));
    whole.insert("unrelated.lua", Node::file("x"));
    let mut c = Charism::new("g", "n", "d");
    c.add(replace("a.lua", "one", "1"), &mut whole).unwrap();
    c.add(replace("b.lua", "two", "2"), &mut whole).unwrap();
    let mut part = FileStore::new();
    for path in c.watched_paths() {
        if let Some(node) = whole.get(&path) {
            part.insert(&path, node.duplicate());
        }
    }
    assert!(!part.contains("unrelated.lua"));
    c.apply(&mut whole).unwrap();
    c.apply(&mut part).unwrap();
    for path in c.watched_paths() {
        assert_eq!(content(&whole, &path), content(&part, &path));
    }
    assert_eq!(content(&part, "a.lua"), "1");
    assert_eq!(content(&part, "b.lua"), "2");
}

#[test]
fn failed_apply_leaves_every_touched_file_as_its_backup() {
    let mut store = FileStore::new();
    store.insert("a.lua", Node::file("one"));
    store.insert("b.lua", Node::file("two"));
    let mut c = Charism::new("g", "n", "d");
    c.add(replace("a.lua", "one", "1"), &mut store).unwrap();
    c.add(replace("b.lua", "two", "2"), &mut store).unwrap();
    c.add(replace("a.lua", "missing", "x"), &mut store).unwrap();
    assert_eq!(c.apply(&mut store).unwrap_err().kind, ErrorKind::NoMatch);
    for file in c.touched_files() {
        let name = uranus::utils::backup_path(c.backup_home(), file);
        assert_eq!(content(&store, file), content(&store, &name));
    }
    assert_eq!(content(&store, "a.lua"), "one");
    assert_eq!(content(&store, "b.lua"), "two");
}

#[test]
fn apply_reports_every_step() {
    let mut store = FileStore::new();
    store.insert("a.lua", Node::file("one"));
    store.insert("b.lua", Node::file("two"));
    let mut c = Charism::new("Fishing", "Catch", "d");
    c.add(replace("a.lua", "one", "1"), &mut store).unwrap();
    c.add(Pitho::Delete(Delete::new("b.lua".to_string(), "t")), &mut store).unwrap();
    let mut log = Vec::new();
    c.apply_logged(&mut store, &mut log).unwrap();
    assert_eq!(lines(&log), vec![
        "[Catch](a.lua) apply RollBack success!",
        "[Catch](b.lua) apply RollBack success!",
        "[Catch](a.lua) apply Replace success!",
        "[Catch](b.lua) apply Delete success!",
    ]);
    assert_eq!(content(&store, "a.lua"), "1");
    assert_eq!(content(&store, "b.lua"), "wo");
}

#[test]
fn failed_apply_reports_the_failure_and_the_rollback() {
    let mut store = FileStore::new();
    store.insert("a.lua", Node::file("one"));
    let mut c = Charism::new("g", "n", "d");
    c.add(replace("a.lua", "one", "1"), &mut store).unwrap();
    c.add(replace("a.lua", "missing", "x"), &mut store).unwrap();
    let mut log = vec![Event::Over { feature: "earlier".to_string() }];
    let e = c.apply_logged(&mut store, &mut log).unwrap_err();
    assert_eq!(e.kind, ErrorKind::NoMatch);
    assert_eq!(lines(&log), vec![
        "<-earlier->",
        "[n](a.lua) apply RollBack success!",
        "[n](a.lua) apply Replace success!",
        "[n](a.lua) apply Replace failed, NoMatch",
        "[n](a.lua) apply RollBack success!",
        "<-n->",
    ]);
    assert_eq!(content(&store, "a.lua"), "one");
}

#[test]
fn rollback_reports_each_file_and_its_end() {
    let mut store = FileStore::new();
    store.insert("a.lua", Node::file("a"));
    store.insert("b.lua", Node::file("b"));
    let mut c = Charism::new("g", "n", "d");
    c.add(replace("a.lua", "a", "A"), &mut store).unwrap();
    c.add(replace("b.lua", "b", "B"), &mut store).unwrap();
    let mut log = Vec::new();
    c.rollback_logged(&mut store, true, &mut log).unwrap();
    assert_eq!(lines(&log), vec![
        "[n](a.lua) apply RollBack success!",
        "[n](b.lua) apply RollBack success!",
        "<-n->",
    ]);
    let mut log = Vec::new();
    c.rollback_logged(&mut store, false, &mut log).unwrap();
    assert_eq!(lines(&log).len(), 2);
    store.insert("a.lua", Node::Directory { members: uranus::table::Table::new() });
    let mut log = Vec::new();
    let e = c.rollback_logged(&mut store, true, &mut log).unwrap_err();
    assert_eq!(e.kind, ErrorKind::NotFoundOrWrongType);
    assert_eq!(lines(&log), vec!["[n](a.lua) apply RollBack failed, NotFoundOrWrongType"]);
}

#[test]
fn feature_tells_its_group_name_and_description() {
    let c = Charism::new("Fishing", "Catch Better Fish", "Increase biomefish weight.");
    assert_eq!(c.group(), "Fishing");
    assert_eq!(c.name(), "Catch Better Fish");
    assert_eq!(c.description(), "Increase biomefish weight.");
}
