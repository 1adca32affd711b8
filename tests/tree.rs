use symfarm::{
    expand_symlink_dir, find_prefix_symlink, has_new_sub, is_empty_dir, EntryKind, PathError,
    PathParts, SourceChild, WalkEntry, WalkItem,
};

fn p(s: &str) -> PathParts {
    PathParts {
        absolute: s.starts_with('/'),
        parts: s.split('/').filter(|c| !c.is_empty()).map(|c| c.to_string()).collect(),
    }
}

fn same(a: &PathParts, b: &PathParts) -> bool {
    a.absolute == b.absolute && a.parts == b.parts
}

fn child(path: &str, kind: EntryKind, walk: Vec<WalkItem>) -> SourceChild {
    SourceChild { path: p(path), kind, walk }
}

fn entry(path: &str, target: Option<&str>) -> WalkEntry {
    WalkEntry { path: p(path), link_target: target.map(p) }
}

#[test]
fn missing_directory_is_empty() {
    assert!(is_empty_dir(false, false, &vec![]));
}

#[test]
fn directories_only_is_empty() {
    let walk = vec![WalkItem::Other, WalkItem::Other, WalkItem::Other];
    assert!(is_empty_dir(true, true, &walk));
}

#[test]
fn one_file_deep_down_is_not_empty() {
    let walk = vec![WalkItem::Other, WalkItem::Other, WalkItem::File, WalkItem::Other];
    assert!(!is_empty_dir(true, true, &walk));
}

#[test]
fn cycle_counts_as_content() {
    let walk = vec![WalkItem::Other, WalkItem::Failed];
    assert!(!is_empty_dir(true, true, &walk));
}

#[test]
fn non_directory_is_not_empty() {
    assert!(!is_empty_dir(true, false, &vec![WalkItem::File]));
}

#[test]
fn scenario_c_link_to_empty_then_filled() {
    // /mirror/app/sub -> /src/app/sub, an empty directory: the walk meets sub alone.
    assert!(is_empty_dir(true, true, &vec![WalkItem::Other]));
    // A file added under the target shows on the next walk.
    assert!(!is_empty_dir(true, true, &vec![WalkItem::Other, WalkItem::File]));
}

#[test]
fn finds_links_under_prefix_only() {
    let entries = vec![
        entry("/mirror", None),
        entry("/mirror/a.txt", Some("/src/app/a.txt")),
        entry("/mirror/b.txt", Some("/elsewhere/b.txt")),
        entry("/mirror/dir", None),
        entry("/mirror/dir/c", Some("/src/c")),
        entry("/mirror/dir/d", Some("/srcx/d")),
    ];
    let found = find_prefix_symlink(true, &entries, &p("/src"));
    assert_eq!(found.len(), 2);
    assert!(same(&found[0].src, &p("/src/app/a.txt")));
    assert!(same(&found[0].dst, &p("/mirror/a.txt")));
    assert!(same(&found[1].src, &p("/src/c")));
    assert!(same(&found[1].dst, &p("/mirror/dir/c")));
}

#[test]
fn relative_targets_match_relative_prefix() {
    let entries = vec![entry("/m/x", Some("../src/x")), entry("/m/y", Some("/src/y"))];
    let found = find_prefix_symlink(true, &entries, &p("../src"));
    assert_eq!(found.len(), 1);
    assert!(same(&found[0].dst, &p("/m/x")));
}

#[test]
fn missing_directory_has_no_links() {
    let entries = vec![entry("/mirror/a", Some("/src/a"))];
    assert!(find_prefix_symlink(false, &entries, &p("/src")).is_empty());
}

#[test]
fn scenario_a_expand_one_level() {
    let children = vec![p("/mirror/app/a.txt"), p("/mirror/app/sub")];
    let plan = expand_symlink_dir(&p("/mirror/app"), &p("/src/app"), &children).unwrap();
    assert_eq!(plan.len(), 2);
    assert!(same(&plan[0].dst, &p("/mirror/app/a.txt")));
    assert!(same(&plan[0].src, &p("/src/app/a.txt")));
    assert!(same(&plan[1].dst, &p("/mirror/app/sub")));
    assert!(same(&plan[1].src, &p("/src/app/sub")));
}

#[test]
fn expand_keeps_relative_target() {
    let children = vec![p("/mirror/app/a.txt")];
    let plan = expand_symlink_dir(&p("/mirror/app"), &p("../src/app"), &children).unwrap();
    assert!(same(&plan[0].src, &p("../src/app/a.txt")));
}

#[test]
fn expand_of_empty_target_plans_nothing() {
    let plan = expand_symlink_dir(&p("/mirror/app"), &p("/src/app"), &vec![]).unwrap();
    assert!(plan.is_empty());
}

#[test]
fn expand_rejects_child_outside_link() {
    let children = vec![p("/mirror/app/a.txt"), p("/elsewhere/b.txt")];
    let r = expand_symlink_dir(&p("/mirror/app"), &p("/src/app"), &children);
    assert_eq!(r.err(), Some(PathError::PathStructure));
}

#[test]
fn scenario_b_new_file_is_unmirrored() {
    let children = vec![
        child("/src/app/a.txt", EntryKind::File, vec![]),
        child("/src/app/sub", EntryKind::Dir, vec![WalkItem::Other, WalkItem::File]),
        child("/src/app/b.txt", EntryKind::File, vec![]),
    ];
    let present = vec![p("/mirror/app/a.txt"), p("/mirror/app/sub")];
    let r = has_new_sub(&p("/src/app"), &p("/mirror/app"), true, &children, &present);
    assert_eq!(r, Ok(true));
}

#[test]
fn fully_mirrored_source_has_nothing_new() {
    let children = vec![
        child("/src/app/a.txt", EntryKind::File, vec![]),
        child("/src/app/sub", EntryKind::Dir, vec![WalkItem::Other, WalkItem::File]),
    ];
    let present = vec![p("/mirror/app/sub"), p("/mirror/app/a.txt")];
    let r = has_new_sub(&p("/src/app"), &p("/mirror/app"), true, &children, &present);
    assert_eq!(r, Ok(false));
}

#[test]
fn missing_source_has_nothing_new() {
    let children = vec![child("/src/app/a.txt", EntryKind::File, vec![])];
    let r = has_new_sub(&p("/src/app"), &p("/mirror/app"), false, &children, &vec![]);
    assert_eq!(r, Ok(false));
}

#[test]
fn empty_directory_without_counterpart_is_not_new() {
    let children = vec![
        child("/src/app/empty", EntryKind::Dir, vec![WalkItem::Other, WalkItem::Other]),
        child("/src/app/broken", EntryKind::Other, vec![]),
    ];
    let r = has_new_sub(&p("/src/app"), &p("/mirror/app"), true, &children, &vec![]);
    assert_eq!(r, Ok(false));
}

#[test]
fn non_empty_directory_without_counterpart_is_new() {
    let children = vec![child("/src/app/full", EntryKind::Dir, vec![WalkItem::Other, WalkItem::File])];
    let r = has_new_sub(&p("/src/app"), &p("/mirror/app"), true, &children, &vec![]);
    assert_eq!(r, Ok(true));
}

#[test]
fn child_outside_source_is_path_structure() {
    let children = vec![child("/other/a.txt", EntryKind::File, vec![])];
    let r = has_new_sub(&p("/src/app"), &p("/mirror/app"), true, &children, &vec![]);
    assert_eq!(r, Err(PathError::PathStructure));
}

#[test]
fn gap_before_stray_child_wins() {
    let children = vec![
        child("/src/app/new.txt", EntryKind::File, vec![]),
        child("/other/a.txt", EntryKind::File, vec![]),
    ];
    let r = has_new_sub(&p("/src/app"), &p("/mirror/app"), true, &children, &vec![]);
    assert_eq!(r, Ok(true));
}
