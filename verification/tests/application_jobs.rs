use hbackup::application::Application;
use hbackup::job::{BackupModel, CompressFormat, Job, Level};
use hbackup::pathname::BackupPath;
use hbackup::textual::display_jobs;

fn path(absolute: bool, parts: &[&str]) -> BackupPath {
    BackupPath::from_parts(absolute, parts.iter().map(|s| s.to_string()).collect())
}

#[test]
fn test_application_add_job() {
    let mut app = Application::new();
    let source = path(true, &["test", "source"]);
    let target = path(true, &["test", "target"]);

    app.add_job(
        source.clone(),
        target.clone(),
        Some(CompressFormat::Gzip),
        Some(Level::Default),
        None,
        None,
    );

    assert_eq!(app.jobs.len(), 1);
    assert_eq!(app.jobs[0].id, 1);
    assert_eq!(app.jobs[0].source.parts, source.parts);
    assert_eq!(app.jobs[0].target.parts, target.parts);
    assert!(matches!(
        app.jobs[0].compression,
        Some(CompressFormat::Gzip)
    ));
    assert!(matches!(app.jobs[0].level, Some(Level::Default)));
}

#[test]
fn test_application_add_multiple_jobs() {
    let mut app = Application::new();

    app.add_job(
        path(true, &["test", "source1"]),
        path(true, &["test", "target1"]),
        Some(CompressFormat::Zip),
        Some(Level::Fastest),
        None,
        None,
    );

    app.add_job(
        path(true, &["test", "source2"]),
        path(true, &["test", "target2"]),
        Some(CompressFormat::Zstd),
        Some(Level::Best),
        Some(vec![path(false, &["*.log"])]),
        None,
    );

    assert_eq!(app.jobs.len(), 2);
    assert_eq!(app.jobs[0].id, 1);
    assert_eq!(app.jobs[1].id, 2);
    assert_ne!(app.jobs[0].id, app.jobs[1].id);
}

#[test]
fn test_application_remove_job() {
    let mut app = Application::new();

    app.add_job(
        path(true, &["test", "source1"]),
        path(true, &["test", "target1"]),
        None,
        None,
        None,
        None,
    );
    app.add_job(
        path(true, &["test", "source2"]),
        path(true, &["test", "target2"]),
        None,
        None,
        None,
        None,
    );

    assert_eq!(app.jobs.len(), 2);

    let result = app.remove_job(1);
    assert!(result.is_some());
    assert_eq!(app.jobs.len(), 1);
    assert_eq!(app.jobs[0].id, 2);

    let result = app.remove_job(999);
    assert!(result.is_none());
    assert_eq!(app.jobs.len(), 1);
}

#[test]
fn test_application_reset_jobs() {
    let mut app = Application::new();

    app.add_job(
        path(true, &["test", "source1"]),
        path(true, &["test", "target1"]),
        None,
        None,
        None,
        None,
    );
    app.add_job(
        path(true, &["test", "source2"]),
        path(true, &["test", "target2"]),
        None,
        None,
        None,
        None,
    );

    assert_eq!(app.jobs.len(), 2);

    app.reset_jobs();
    assert!(app.jobs.is_empty());
}

#[test]
fn test_job_display_with_all_compression_formats() {
    let formats = [
        CompressFormat::Gzip,
        CompressFormat::Zip,
        CompressFormat::Sevenz,
        CompressFormat::Zstd,
        CompressFormat::Bzip2,
        CompressFormat::Xz,
        CompressFormat::Lz4,
        CompressFormat::Tar,
    ];

    for (i, format) in formats.iter().enumerate() {
        let job = Job {
            id: (i + 1) as u32,
            source: path(true, &["input"]),
            target: path(true, &["output"]),
            compression: Some(*format),
            level: Some(Level::Default),
            ignore: None,
            model: None,
        };

        let display_str = display_jobs(&vec![job]);
        assert!(display_str.contains(&format!("{:?}", format)));
    }
}

#[test]
fn test_job_display_with_all_compression_levels() {
    let levels = [
        Level::Fastest,
        Level::Faster,
        Level::Default,
        Level::Better,
        Level::Best,
    ];

    for (i, level) in levels.iter().enumerate() {
        let job = Job {
            id: (i + 1) as u32,
            source: path(true, &["input"]),
            target: path(true, &["output"]),
            compression: Some(CompressFormat::Gzip),
            level: Some(*level),
            ignore: None,
            model: None,
        };

        let display_str = display_jobs(&vec![job]);
        assert!(display_str.contains(&format!("{:?}", level)));
    }
}

#[test]
fn test_job_display_with_backup_models() {
    let models = [BackupModel::Full, BackupModel::Mirror];

    for (i, model) in models.iter().enumerate() {
        let job = Job {
            id: (i + 1) as u32,
            source: path(true, &["input"]),
            target: path(true, &["output"]),
            compression: None,
            level: None,
            ignore: None,
            model: Some(*model),
        };

        let display_str = display_jobs(&vec![job]);
        assert!(display_str.contains(&format!("{:?}", model)));
    }
}

#[test]
fn test_job_display_without_optional_fields() {
    let job = Job {
        id: 1,
        source: path(true, &["input"]),
        target: path(true, &["output"]),
        compression: None,
        level: None,
        ignore: None,
        model: None,
    };

    let display_str = display_jobs(&vec![job]);

    assert!(display_str.contains("id: 1"));
    assert!(display_str.contains(&format!("source: {:?}", "/input")));
    assert!(display_str.contains(&format!("target: {:?}", "/output")));

    assert!(!display_str.contains("compression:"));
    assert!(!display_str.contains("level:"));
    assert!(!display_str.contains("ignore:"));
    assert!(!display_str.contains("model:"));
}

#[test]
fn test_job_display_with_ignore_patterns() {
    let job = Job {
        id: 1,
        source: path(true, &["input"]),
        target: path(true, &["output"]),
        compression: None,
        level: None,
        ignore: Some(vec![
            path(false, &["*.log"]),
            path(false, &["*.tmp"]),
            path(false, &["cache/"]),
        ]),
        model: None,
    };

    let display_str = display_jobs(&vec![job]);

    assert!(display_str.contains("ignore:"));
    assert!(display_str.contains("*.log"));
    assert!(display_str.contains("*.tmp"));
    assert!(display_str.contains("cache/"));
}

#[test]
fn test_multiple_jobs_display_formatting() {
    let jobs = vec![
        Job {
            id: 1,
            source: path(true, &["path1"]),
            target: path(true, &["target1"]),
            compression: Some(CompressFormat::Gzip),
            level: Some(Level::Fastest),
            ignore: None,
            model: Some(BackupModel::Full),
        },
        Job {
            id: 2,
            source: path(true, &["path2"]),
            target: path(true, &["target2"]),
            compression: None,
            level: None,
            ignore: Some(vec![path(false, &["*.log"])]),
            model: Some(BackupModel::Mirror),
        },
    ];

    let display_str = display_jobs(&jobs);

    assert!(display_str.starts_with('['));
    assert!(display_str.ends_with(']'));

    assert!(display_str.contains("id: 1"));
    assert!(display_str.contains("id: 2"));

    let open_braces = display_str.matches('{').count();
    let close_braces = display_str.matches('}').count();
    assert_eq!(open_braces, close_braces);
    assert_eq!(open_braces, 2);
}
