use uranus::utils::{backup_path, file_name, join_path};

#[test]
fn join_puts_one_separator_between() {
    assert_eq!(join_path("hades", "FishingData.lua"), "hades/FishingData.lua");
    assert_eq!(join_path("/opt/hades/Content", "RoomManager.lua"), "/opt/hades/Content/RoomManager.lua");
}

#[test]
fn join_keeps_a_separator_that_is_there() {
    assert_eq!(join_path("hades/", "FishingData.lua"), "hades/FishingData.lua");
    assert_eq!(join_path("C:\\Hades\\", "FishingData.lua"), "C:\\Hades\\FishingData.lua");
}

#[test]
fn join_with_empty_base_is_the_name() {
    assert_eq!(join_path("", "FishingData.lua"), "FishingData.lua");
}

#[test]
fn join_with_empty_name_ends_in_separator() {
    assert_eq!(join_path("Eden", ""), "Eden/");
    assert_eq!(join_path("", ""), "");
}

#[test]
fn join_with_rooted_name_is_the_name() {
    assert_eq!(join_path("hades", "/etc/passwd"), "/etc/passwd");
    assert_eq!(join_path("hades", "\\share"), "\\share");
}

#[test]
fn file_name_is_the_last_component() {
    assert_eq!(file_name("hades/Content/FishingData.lua"), "FishingData.lua");
    assert_eq!(file_name("FishingData.lua"), "FishingData.lua");
    assert_eq!(file_name("C:\\Hades\\Content\\TraitData.lua"), "TraitData.lua");
    assert_eq!(file_name("C:\\Hades/Content\\TraitData.lua"), "TraitData.lua");
}

#[test]
fn file_name_drops_separators_at_the_end() {
    assert_eq!(file_name("hades/Scripts/"), "Scripts");
    assert_eq!(file_name("hades/Scripts///"), "Scripts");
    assert_eq!(file_name("hades\\Scripts\\"), "Scripts");
}

#[test]
fn file_name_of_nothing_is_empty() {
    assert_eq!(file_name(""), "");
    assert_eq!(file_name("/"), "");
    assert_eq!(file_name("///"), "");
}

#[test]
fn file_name_counts_characters_not_bytes() {
    assert_eq!(file_name("h\u{e4}des/\u{3b1}\u{3b2}.lua"), "\u{3b1}\u{3b2}.lua");
    assert_eq!(join_path("h\u{e4}des", "\u{3b1}.lua"), "h\u{e4}des/\u{3b1}.lua");
}

#[test]
fn backup_path_goes_by_the_final_component() {
    assert_eq!(backup_path("./Eden", "hades/Content/FishingData.lua"), "./Eden/FishingData.lua");
    assert_eq!(backup_path("./Eden", "other/FishingData.lua"), "./Eden/FishingData.lua");
    assert_eq!(backup_path("Eden/", "FishingData.lua"), "Eden/FishingData.lua");
}

#[test]
fn backup_path_of_a_path_in_the_root_is_the_path() {
    assert_eq!(backup_path("Eden", "Eden/FishingData.lua"), "Eden/FishingData.lua");
}

#[test]
fn file_name_of_a_joined_path_is_the_name() {
    for base in ["", "hades", "hades/", "/opt/hades/Content", "C:\\Hades\\"] {
        assert_eq!(file_name(&join_path(base, "FishingData.lua")), "FishingData.lua");
        assert_eq!(backup_path("./Eden", &join_path(base, "a b.lua")), "./Eden/a b.lua");
    }
}

#[test]
fn file_name_holds_no_separator() {
    for path in ["a/b\\c", "a//", "\\\\server\\share\\", "x", "a/b/../c/."] {
        let name = file_name(path);
        assert!(!name.contains('/'));
        assert!(!name.contains('\\'));
    }
    assert_eq!(file_name("a/b/../c/."), ".");
    assert_eq!(file_name("a/.."), "..");
}
