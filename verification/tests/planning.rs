use hbackup::executor::{apply_action, copy_route, first_failure, CopyRoute, Effect};
use hbackup::item::{Item, Strategy};
use hbackup::job::BackupModel;
use hbackup::pathname::BackupPath;
use hbackup::planner::{resolve_file, resolve_tree, PlanError};
use hbackup::snapshot::{needs_update, FileEntry, NodeKind};

fn path(absolute: bool, parts: &[&str]) -> BackupPath {
    BackupPath::from_parts(absolute, parts.iter().map(|s| s.to_string()).collect())
}

fn entry(parts: &[&str], size: u64, mtime: u64) -> FileEntry {
    FileEntry::new(parts.iter().map(|s| s.to_string()).collect(), size, mtime)
}

fn parts_of(p: &BackupPath) -> Vec<&str> {
    p.parts.iter().map(|s| s.as_str()).collect()
}

#[test]
fn test_needs_update_cases() {
    assert!(needs_update(5, 100, None));
    assert!(needs_update(5, 100, Some((6, 100))));
    assert!(needs_update(5, 102, Some((5, 100))));
    assert!(!needs_update(5, 101, Some((5, 100))));
    assert!(!needs_update(5, 100, Some((5, 100))));
    assert!(!needs_update(5, 50, Some((5, 100))));
}

#[test]
fn test_resolve_file_into_directory() {
    let source = path(true, &["data", "a.txt"]);
    let target = path(true, &["backup"]);
    let item = resolve_file(
        &source,
        &target,
        BackupModel::Full,
        NodeKind::File,
        NodeKind::Dir,
        3,
        1000,
        None,
    )
    .unwrap();
    assert_eq!(item.strategy, Strategy::Copy);
    assert_eq!(parts_of(&item.src), vec!["data", "a.txt"]);
    assert_eq!(parts_of(&item.dest), vec!["backup", "a.txt"]);
}

#[test]
fn test_resolve_file_mirror_up_to_date() {
    let source = path(true, &["data", "a.txt"]);
    let target = path(true, &["backup", "a.txt"]);
    let item = resolve_file(
        &source,
        &target,
        BackupModel::Mirror,
        NodeKind::File,
        NodeKind::File,
        3,
        1000,
        Some((3, 1000)),
    )
    .unwrap();
    assert_eq!(item.strategy, Strategy::NotUpdate);
    assert_eq!(parts_of(&item.dest), vec!["backup", "a.txt"]);
}

#[test]
fn test_resolve_file_source_missing() {
    let source = path(true, &["gone"]);
    let target = path(true, &["backup"]);
    let err = resolve_file(
        &source,
        &target,
        BackupModel::Full,
        NodeKind::Missing,
        NodeKind::Dir,
        0,
        0,
        None,
    )
    .unwrap_err();
    assert_eq!(err, PlanError::SourceMissing);
}

#[test]
fn test_resolve_file_source_is_directory() {
    let source = path(true, &["data"]);
    let target = path(true, &["backup"]);
    let err = resolve_file(
        &source,
        &target,
        BackupModel::Full,
        NodeKind::Dir,
        NodeKind::Dir,
        0,
        0,
        None,
    )
    .unwrap_err();
    assert_eq!(err, PlanError::SourceNotFile);
}

#[test]
fn test_resolve_tree_source_errors() {
    let source = path(true, &["data", "src"]);
    let target = path(true, &["backup"]);
    let err = resolve_tree(
        &source,
        &target,
        BackupModel::Full,
        &vec![],
        NodeKind::Missing,
        &vec![],
        &vec![],
    )
    .unwrap_err();
    assert_eq!(err, PlanError::SourceMissing);

    let err = resolve_tree(
        &source,
        &target,
        BackupModel::Full,
        &vec![],
        NodeKind::File,
        &vec![],
        &vec![],
    )
    .unwrap_err();
    assert_eq!(err, PlanError::SourceNotDirectory);
}

#[test]
fn test_full_model_never_deletes() {
    let source = path(true, &["data", "src"]);
    let target = path(true, &["backup"]);
    let src_files = vec![entry(&["a.txt"], 1, 1000)];
    let dest_files = vec![
        entry(&["src", "a.txt"], 1, 1000),
        entry(&["stale", "old.bin"], 9, 10),
        entry(&["src", "extra.txt"], 2, 20),
    ];
    let plan = resolve_tree(
        &source,
        &target,
        BackupModel::Full,
        &vec![],
        NodeKind::Dir,
        &src_files,
        &dest_files,
    )
    .unwrap();
    assert_eq!(plan.len(), 1);
    for item in &plan {
        assert_ne!(item.strategy, Strategy::Delete);
        assert_eq!(item.strategy, Strategy::Copy);
    }
}

#[test]
fn test_ignored_subtree_never_copied() {
    let source = path(true, &["data", "src"]);
    let target = path(true, &["backup"]);
    let ignore = vec![path(false, &["temp"])];
    let src_files = vec![
        entry(&["a.txt"], 1, 1000),
        entry(&["temp", "x.log"], 5, 1000),
        entry(&["temp", "deep", "y.log"], 5, 1000),
    ];
    let plan = resolve_tree(
        &source,
        &target,
        BackupModel::Mirror,
        &ignore,
        NodeKind::Dir,
        &src_files,
        &vec![],
    )
    .unwrap();
    assert_eq!(plan.len(), 1);
    assert_eq!(plan[0].strategy, Strategy::Copy);
    assert_eq!(parts_of(&plan[0].src), vec!["data", "src", "a.txt"]);
    for item in &plan {
        if item.strategy == Strategy::Copy {
            assert!(!item.src.parts.iter().any(|c| c == "x.log" || c == "y.log"));
        }
    }
}

#[test]
fn test_mirror_deletes_each_stale_file_once() {
    let source = path(true, &["data", "src"]);
    let target = path(true, &["backup"]);
    let src_files = vec![entry(&["keep.txt"], 1, 1000)];
    let dest_files = vec![
        entry(&["src", "keep.txt"], 1, 1000),
        entry(&["src", "gone1.txt"], 1, 10),
        entry(&["src", "gone2.txt"], 1, 10),
    ];
    let plan = resolve_tree(
        &source,
        &target,
        BackupModel::Mirror,
        &vec![],
        NodeKind::Dir,
        &src_files,
        &dest_files,
    )
    .unwrap();
    let deletes: Vec<&Item> = plan
        .iter()
        .filter(|i| i.strategy == Strategy::Delete)
        .collect();
    assert_eq!(deletes.len(), 2);
    let mut dests: Vec<Vec<&str>> = deletes.iter().map(|i| parts_of(&i.dest)).collect();
    dests.sort();
    assert_eq!(
        dests,
        vec![
            vec!["backup", "src", "gone1.txt"],
            vec!["backup", "src", "gone2.txt"],
        ]
    );
    // A delete action carries no source path.
    for d in &deletes {
        assert!(d.src.parts.is_empty());
    }
}

#[test]
fn test_apply_action_effects() {
    let copy = Item::from_copy_strategy(path(true, &["a"]), path(true, &["b"]));
    match apply_action(copy, NodeKind::Missing) {
        Effect::CopyFile { src, dest } => {
            assert_eq!(parts_of(&src), vec!["a"]);
            assert_eq!(parts_of(&dest), vec!["b"]);
        }
        _ => panic!("copy action must copy"),
    }

    let del = Item::from_delete_strategy(path(true, &["b"]));
    assert!(matches!(
        apply_action(del, NodeKind::Missing),
        Effect::Nothing
    ));
    let del = Item::from_delete_strategy(path(true, &["b"]));
    assert!(matches!(
        apply_action(del, NodeKind::File),
        Effect::RemoveFile { .. }
    ));
    let del = Item::from_delete_strategy(path(true, &["b"]));
    assert!(matches!(
        apply_action(del, NodeKind::Dir),
        Effect::RemoveDir { .. }
    ));

    let skip = Item::from_notupdate_strategy(path(true, &["a"]), path(true, &["b"]));
    assert!(matches!(apply_action(skip, NodeKind::File), Effect::Nothing));
    let ign = Item::from_ignore_strategy(path(true, &["a"]), path(true, &["b"]));
    assert!(matches!(apply_action(ign, NodeKind::File), Effect::Nothing));
}

#[test]
fn test_item_constructors() {
    let mut item = Item::from_ignore_strategy(path(true, &["a"]), path(true, &["b"]));
    assert_eq!(item.strategy, Strategy::Ignore);
    assert_eq!(parts_of(&item.src), vec!["a"]);
    item.change_delete_strategy();
    assert_eq!(item.strategy, Strategy::Delete);
    assert!(item.src.parts.is_empty());
    assert_eq!(parts_of(&item.dest), vec!["b"]);
}

#[test]
fn test_copy_route_decisions() {
    let src = path(true, &["data", "a.txt"]);
    let dest = path(true, &["backup"]);
    match copy_route(&src, &dest, NodeKind::File, NodeKind::Dir).unwrap() {
        CopyRoute::CopyTo { dest } => {
            assert_eq!(parts_of(&dest), vec!["backup", "a.txt"]);
        }
        _ => panic!("a file source must be copied"),
    }
    assert!(matches!(
        copy_route(&src, &dest, NodeKind::Dir, NodeKind::Missing).unwrap(),
        CopyRoute::CreateDir
    ));
    assert_eq!(
        copy_route(&src, &dest, NodeKind::Dir, NodeKind::File).unwrap_err(),
        PlanError::TargetNotDirectory
    );
    assert_eq!(
        copy_route(&src, &dest, NodeKind::Missing, NodeKind::Dir).unwrap_err(),
        PlanError::SourceMissing
    );
}

#[test]
fn test_first_failure_policy() {
    assert_eq!(first_failure(vec![]), None);
    assert_eq!(first_failure(vec![None, None]), None);
    assert_eq!(
        first_failure(vec![
            None,
            Some("read failed".to_string()),
            Some("write failed".to_string()),
        ]),
        Some("read failed".to_string())
    );
}
