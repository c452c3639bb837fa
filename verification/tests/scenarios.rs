use hbackup::executor::{apply_action, Effect};
use hbackup::item::Strategy;
use hbackup::job::BackupModel;
use hbackup::pathname::BackupPath;
use hbackup::planner::{resolve_file, resolve_tree, PlanError};
use hbackup::runner::{classify_job, JobRoute};
use hbackup::job::Job;
use hbackup::snapshot::{FileEntry, NodeKind};

fn path(absolute: bool, parts: &[&str]) -> BackupPath {
    BackupPath::from_parts(absolute, parts.iter().map(|s| s.to_string()).collect())
}

fn entry(parts: &[&str], size: u64, mtime: u64) -> FileEntry {
    FileEntry::new(parts.iter().map(|s| s.to_string()).collect(), size, mtime)
}

/// A miniature filesystem for the tests: absolute path components mapped
/// to file contents, with a clock for modification times.
struct ModelFs {
    files: Vec<(Vec<String>, String, u64)>,
}

impl ModelFs {
    fn new() -> ModelFs {
        ModelFs { files: Vec::new() }
    }

    fn put(&mut self, parts: &[&str], content: &str, mtime: u64) {
        let key: Vec<String> = parts.iter().map(|s| s.to_string()).collect();
        self.files.retain(|(p, _, _)| *p != key);
        self.files.push((key, content.to_string(), mtime));
    }

    fn get(&self, parts: &[&str]) -> Option<&str> {
        let key: Vec<String> = parts.iter().map(|s| s.to_string()).collect();
        self.files
            .iter()
            .find(|(p, _, _)| *p == key)
            .map(|(_, c, _)| c.as_str())
    }

    fn kind_of(&self, p: &BackupPath) -> NodeKind {
        if self.files.iter().any(|(fp, _, _)| *fp == p.parts) {
            NodeKind::File
        } else if self
            .files
            .iter()
            .any(|(fp, _, _)| fp.len() > p.parts.len() && fp[..p.parts.len()] == p.parts[..])
        {
            NodeKind::Dir
        } else {
            NodeKind::Missing
        }
    }

    /// Every file under `root`, relative to it, with its metadata.
    fn list_under(&self, root: &BackupPath) -> Vec<FileEntry> {
        let mut out = Vec::new();
        for (fp, c, mtime) in &self.files {
            if fp.len() > root.parts.len() && fp[..root.parts.len()] == root.parts[..] {
                out.push(FileEntry::new(
                    fp[root.parts.len()..].to_vec(),
                    c.len() as u64,
                    *mtime,
                ));
            }
        }
        out
    }

    fn apply(&mut self, effect: Effect, now: u64) {
        match effect {
            Effect::CopyFile { src, dest } => {
                let content = self
                    .get(&src.parts.iter().map(|s| s.as_str()).collect::<Vec<_>>())
                    .expect("copy source must exist")
                    .to_string();
                let keep: Vec<&str> = dest.parts.iter().map(|s| s.as_str()).collect();
                self.put(&keep, &content, now);
            }
            Effect::RemoveFile { dest } => {
                self.files.retain(|(p, _, _)| *p != dest.parts);
            }
            Effect::RemoveDir { dest } => {
                self.files.retain(|(p, _, _)| {
                    !(p.len() > dest.parts.len() && p[..dest.parts.len()] == dest.parts[..])
                });
            }
            Effect::Nothing => {}
        }
    }
}

/// Plans a mirror run of the tree job and applies the whole worklist.
fn run_tree_job(fs: &mut ModelFs, source: &BackupPath, target: &BackupPath, now: u64) -> Vec<Strategy> {
    let src_files = fs.list_under(source);
    let dest_files = fs.list_under(target);
    let plan = resolve_tree(
        source,
        target,
        BackupModel::Mirror,
        &vec![],
        fs.kind_of(source),
        &src_files,
        &dest_files,
    )
    .unwrap();
    let mut strategies = Vec::new();
    for item in plan {
        strategies.push(item.strategy);
        let kind = fs.kind_of(&item.dest);
        let effect = apply_action(item, kind);
        fs.apply(effect, now);
    }
    strategies
}

#[test]
fn scenario_fresh_copy_then_apply() {
    let mut fs = ModelFs::new();
    fs.put(&["data", "src", "a.txt"], "x", 1000);
    let source = path(true, &["data", "src"]);
    let target = path(true, &["backup"]);

    let src_files = fs.list_under(&source);
    let dest_files = fs.list_under(&target);
    let plan = resolve_tree(
        &source,
        &target,
        BackupModel::Mirror,
        &vec![],
        NodeKind::Dir,
        &src_files,
        &dest_files,
    )
    .unwrap();

    assert_eq!(plan.len(), 1);
    assert_eq!(plan[0].strategy, Strategy::Copy);
    assert_eq!(
        plan[0].src.parts,
        vec!["data".to_string(), "src".to_string(), "a.txt".to_string()]
    );
    assert_eq!(
        plan[0].dest.parts,
        vec!["backup".to_string(), "src".to_string(), "a.txt".to_string()]
    );

    let strategies = run_tree_job(&mut fs, &source, &target, 1005);
    assert_eq!(strategies, vec![Strategy::Copy]);
    assert_eq!(fs.get(&["backup", "src", "a.txt"]), Some("x"));
}

#[test]
fn scenario_second_run_only_skips() {
    let mut fs = ModelFs::new();
    fs.put(&["data", "src", "a.txt"], "x", 1000);
    let source = path(true, &["data", "src"]);
    let target = path(true, &["backup"]);

    let first = run_tree_job(&mut fs, &source, &target, 1005);
    assert_eq!(first, vec![Strategy::Copy]);

    // No source change: the second plan holds one skip and nothing else,
    // and the destination is untouched.
    let second = run_tree_job(&mut fs, &source, &target, 2000);
    assert_eq!(second, vec![Strategy::NotUpdate]);
    assert_eq!(fs.get(&["backup", "src", "a.txt"]), Some("x"));
    assert_eq!(fs.files.len(), 2);
}

#[test]
fn scenario_deleted_source_file_is_mirrored() {
    let mut fs = ModelFs::new();
    fs.put(&["data", "src", "a.txt"], "x", 1000);
    let source = path(true, &["data", "src"]);
    let target = path(true, &["backup"]);
    run_tree_job(&mut fs, &source, &target, 1005);
    assert_eq!(fs.get(&["backup", "src", "a.txt"]), Some("x"));

    // Delete a.txt from the source and re-run.
    fs.files.retain(|(p, _, _)| p[0] != "data" || p[2] != "a.txt");
    let src_files = fs.list_under(&source);
    let dest_files = fs.list_under(&target);
    let plan = resolve_tree(
        &source,
        &target,
        BackupModel::Mirror,
        &vec![],
        NodeKind::Dir,
        &src_files,
        &dest_files,
    )
    .unwrap();
    assert_eq!(plan.len(), 1);
    assert_eq!(plan[0].strategy, Strategy::Delete);
    assert_eq!(
        plan[0].dest.parts,
        vec!["backup".to_string(), "src".to_string(), "a.txt".to_string()]
    );

    for item in plan {
        let kind = fs.kind_of(&item.dest);
        let effect = apply_action(item, kind);
        fs.apply(effect, 2000);
    }
    assert_eq!(fs.get(&["backup", "src", "a.txt"]), None);
}

#[test]
fn scenario_newly_ignored_file_is_cleaned_up() {
    // An earlier unfiltered run copied temp/x.log; now temp is ignored.
    let mut fs = ModelFs::new();
    fs.put(&["data", "src", "a.txt"], "x", 1000);
    fs.put(&["data", "src", "temp", "x.log"], "log", 1000);
    fs.put(&["backup", "src", "a.txt"], "x", 1001);
    fs.put(&["backup", "src", "temp", "x.log"], "log", 1001);
    let source = path(true, &["data", "src"]);
    let target = path(true, &["backup"]);
    let ignore = vec![path(false, &["temp"])];

    let src_files = fs.list_under(&source);
    let dest_files = fs.list_under(&target);
    let plan = resolve_tree(
        &source,
        &target,
        BackupModel::Mirror,
        &ignore,
        NodeKind::Dir,
        &src_files,
        &dest_files,
    )
    .unwrap();

    let deletes: Vec<_> = plan
        .iter()
        .filter(|i| i.strategy == Strategy::Delete)
        .collect();
    assert_eq!(deletes.len(), 1);
    assert_eq!(
        deletes[0].dest.parts,
        vec![
            "backup".to_string(),
            "src".to_string(),
            "temp".to_string(),
            "x.log".to_string(),
        ]
    );
}

#[test]
fn scenario_batch_isolates_job_failures() {
    // Job 1's source does not exist; job 2 still completes in full.
    let mut fs = ModelFs::new();
    fs.put(&["data2", "stuff", "b.txt"], "hello", 1000);

    let job1 = Job::temp_job(
        path(true, &["gone"]),
        path(true, &["backup1"]),
        None,
        None,
        None,
        Some(BackupModel::Mirror),
    );
    let job2 = Job::temp_job(
        path(true, &["data2", "stuff"]),
        path(true, &["backup2"]),
        None,
        None,
        None,
        Some(BackupModel::Mirror),
    );

    // Job 1: the single-file route surfaces the fatal error.
    let kind1 = fs.kind_of(&job1.source);
    assert_eq!(kind1, NodeKind::Missing);
    let route1 = classify_job(&job1, kind1, fs.kind_of(&job1.target)).unwrap();
    assert!(matches!(route1, JobRoute::SingleFile { .. }));
    let err = resolve_file(
        &job1.source,
        &job1.target,
        BackupModel::Mirror,
        kind1,
        NodeKind::Missing,
        0,
        0,
        None,
    )
    .unwrap_err();
    assert_eq!(err, PlanError::SourceMissing);

    // Job 2 runs to completion regardless.
    let route2 = classify_job(&job2, fs.kind_of(&job2.source), fs.kind_of(&job2.target)).unwrap();
    assert!(matches!(route2, JobRoute::Tree { model: BackupModel::Mirror }));
    let strategies = run_tree_job(&mut fs, &job2.source, &job2.target, 1010);
    assert_eq!(strategies, vec![Strategy::Copy]);
    assert_eq!(fs.get(&["backup2", "stuff", "b.txt"]), Some("hello"));
}

#[test]
fn scenario_mixed_tree_run() {
    // One new file, one unchanged file, one stale destination file, one
    // ignored file: each gets its own action, in one worklist.
    let mut fs = ModelFs::new();
    fs.put(&["data", "src", "new.txt"], "n", 1000);
    fs.put(&["data", "src", "old.txt"], "o", 900);
    fs.put(&["data", "src", "temp", "x.log"], "l", 1000);
    fs.put(&["backup", "src", "old.txt"], "o", 901);
    fs.put(&["backup", "src", "stale.txt"], "s", 100);
    let source = path(true, &["data", "src"]);
    let target = path(true, &["backup"]);
    let ignore = vec![path(false, &["temp"])];

    let src_files = fs.list_under(&source);
    let dest_files = fs.list_under(&target);
    let plan = resolve_tree(
        &source,
        &target,
        BackupModel::Mirror,
        &ignore,
        NodeKind::Dir,
        &src_files,
        &dest_files,
    )
    .unwrap();

    let copies: Vec<_> = plan.iter().filter(|i| i.strategy == Strategy::Copy).collect();
    let skips: Vec<_> = plan
        .iter()
        .filter(|i| i.strategy == Strategy::NotUpdate)
        .collect();
    let deletes: Vec<_> = plan
        .iter()
        .filter(|i| i.strategy == Strategy::Delete)
        .collect();
    assert_eq!(copies.len(), 1);
    assert_eq!(copies[0].src.parts.last().unwrap(), "new.txt");
    assert_eq!(skips.len(), 1);
    assert_eq!(skips[0].src.parts.last().unwrap(), "old.txt");
    assert_eq!(deletes.len(), 1);
    assert_eq!(deletes[0].dest.parts.last().unwrap(), "stale.txt");
}
