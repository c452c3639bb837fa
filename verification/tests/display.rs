use hbackup::application::Application;
use hbackup::job::{BackupModel, CompressFormat, Job, Level};
use hbackup::pathname::BackupPath;
use hbackup::textual::{config_backup_name, config_name, display_jobs, pkg_name, u32_text};

fn path(absolute: bool, parts: &[&str]) -> BackupPath {
    BackupPath::from_parts(absolute, parts.iter().map(|s| s.to_string()).collect())
}

#[test]
fn test_application_new() {
    let app = Application::new();
    assert_eq!(app.version, "1.0");
    assert!(app.jobs.is_empty());
}

#[test]
fn test_application_default() {
    let app = Application::default();
    assert_eq!(app.version, "1.0");
    assert!(app.jobs.is_empty());
}

#[test]
fn commands_test_job_list_display() {
    let jobs = vec![
        Job {
            id: 1,
            source: path(true, &["test", "source1"]),
            target: path(true, &["test", "target1"]),
            compression: Some(CompressFormat::Zip),
            level: Some(Level::Fastest),
            ignore: None,
            model: None,
        },
        Job {
            id: 2,
            source: path(true, &["test", "source2"]),
            target: path(true, &["test", "target2"]),
            compression: Some(CompressFormat::Zstd),
            level: Some(Level::Best),
            ignore: Some(vec![path(false, &["*.tmp"])]),
            model: None,
        },
    ];

    let display_str = display_jobs(&jobs);

    assert!(display_str.starts_with('['));
    assert!(display_str.ends_with(']'));
    assert!(display_str.contains("id: 1"));
    assert!(display_str.contains("id: 2"));
    assert!(display_str.contains("Zip"));
    assert!(display_str.contains("Zstd"));
}

#[test]
fn job_test_job_list_display() {
    let jobs = vec![
        Job {
            id: 1,
            source: path(true, &["test", "source1"]),
            target: path(true, &["test", "target1"]),
            compression: Some(CompressFormat::Zip),
            level: Some(Level::Fastest),
            ignore: None,
            model: None,
        },
        Job {
            id: 2,
            source: path(true, &["test", "source2"]),
            target: path(true, &["test", "target2"]),
            compression: Some(CompressFormat::Zstd),
            level: Some(Level::Best),
            ignore: Some(vec![path(false, &["*.tmp"])]),
            model: None,
        },
    ];

    let display_str = display_jobs(&jobs);

    assert!(display_str.starts_with('['));
    assert!(display_str.ends_with(']'));
    assert!(display_str.contains("id: 1"));
    assert!(display_str.contains("id: 2"));
    assert!(display_str.contains("Zip"));
    assert!(display_str.contains("Zstd"));
}

#[test]
fn test_empty_job_list_display() {
    let jobs = vec![];
    let display_str = display_jobs(&jobs);
    assert_eq!(display_str, "");
}

#[test]
fn test_backup_model_default() {
    let model = BackupModel::default();
    assert_eq!(model, BackupModel::Full);
}

#[test]
fn test_pkg_name() {
    assert_eq!(pkg_name(), "hbackup");
}

#[test]
fn test_config_name() {
    assert_eq!(config_name(), "config.toml");
    assert!(config_name().ends_with(".toml"));
}

#[test]
fn test_config_backup_name() {
    assert_eq!(config_backup_name(), "config_backup.toml");
    assert!(config_backup_name().ends_with(".toml"));
    assert!(config_backup_name().contains("backup"));
}

#[test]
fn test_config_names_are_different() {
    assert_ne!(config_name(), config_backup_name());
}

#[test]
fn test_constants_are_valid_filenames() {
    let invalid_chars = ['/', '\\', ':', '*', '?', '"', '<', '>', '|'];

    for &invalid_char in &invalid_chars {
        assert!(!config_name().contains(invalid_char));
        assert!(!config_backup_name().contains(invalid_char));
    }
}

#[test]
fn test_full_job_display_block() {
    let jobs = vec![Job {
        id: 42,
        source: path(true, &["data", "in"]),
        target: path(true, &["backup"]),
        compression: Some(CompressFormat::Gzip),
        level: Some(Level::Better),
        ignore: Some(vec![path(false, &["*.log"]), path(false, &["cache"])]),
        model: Some(BackupModel::Mirror),
    }];
    let s = display_jobs(&jobs);
    let expected = "[{\n    id: 42,\n    source: \"/data/in\",\n    target: \"/backup\",\n    compression: \"Gzip\",\n    level: \"Better\",\n    ignore: [\"*.log\", \"cache\"],\n    model: \"Mirror\"\n}]";
    assert_eq!(s, expected);
}

#[test]
fn test_display_skips_unset_fields() {
    let jobs = vec![Job {
        id: 7,
        source: path(true, &["a"]),
        target: path(true, &["b"]),
        compression: None,
        level: None,
        ignore: None,
        model: None,
    }];
    let s = display_jobs(&jobs);
    assert_eq!(s, "[{\n    id: 7,\n    source: \"/a\",\n    target: \"/b\"\n}]");
    assert!(!s.contains("compression:"));
    assert!(!s.contains("level:"));
    assert!(!s.contains("ignore:"));
    assert!(!s.contains("model:"));
}

#[test]
fn test_u32_text_values() {
    assert_eq!(u32_text(0), "0");
    assert_eq!(u32_text(9), "9");
    assert_eq!(u32_text(10), "10");
    assert_eq!(u32_text(42), "42");
    assert_eq!(u32_text(4294967295), "4294967295");
}
