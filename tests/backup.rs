use pgdo::backup::{
    archive_command, archiving_off, compare_chunks, latest_backup, next_backup_name,
    parse_backup_number, recovery_settings, restore_advice, restore_command, ArchivingPlan,
    BackupError, ChunkVerdict, RestoreAdvice,
};
use pgdo::config::Value;

fn names(list: &[&str]) -> Vec<String> {
    list.iter().map(|s| s.to_string()).collect()
}

#[test]
fn backup_numbers() {
    assert_eq!(Some(1), parse_backup_number("data.0000000001"));
    assert_eq!(Some(42), parse_backup_number("data.42"));
    assert_eq!(None, parse_backup_number("data."));
    assert_eq!(None, parse_backup_number(".tmp.data.123"));
    assert_eq!(None, parse_backup_number("data.12x"));
    assert_eq!(None, parse_backup_number("data.99999999999"));
    assert_eq!(None, parse_backup_number("wal"));
}

#[test]
fn successive_backups_are_numbered_upwards() {
    let mut dir = names(&["wal", ".lock"]);
    for expected in ["data.0000000001", "data.0000000002", "data.0000000003"] {
        let next = next_backup_name(&dir).unwrap();
        assert_eq!(expected, next);
        dir.push(next);
    }
    assert_eq!(
        Some("data.0000000011".to_string()),
        next_backup_name(&names(&["data.0000000003", "data.10", ".tmp.data.abc"]))
    );
    assert_eq!(None, next_backup_name(&names(&["data.4294967295"])));
}

#[test]
fn latest_backup_is_the_highest_number() {
    assert_eq!(None, latest_backup(&names(&["wal", ".lock"])));
    assert_eq!(Some(2), latest_backup(&names(&["data.0000000001", "wal", "data.0000000003", "data.0000000002"])));
}

fn s(v: &str) -> Option<Value> {
    Some(Value::String(v.to_string()))
}

#[test]
fn archiving_already_configured_needs_nothing() {
    let plan = ArchivingPlan::decide(&s("replica"), &s("on"), &s(""), &s("cmd"), "cmd").unwrap();
    assert_eq!(ArchivingPlan { set_wal_level: false, set_archive_mode: false, set_archive_command: false }, plan);
    assert!(!plan.restart_needed());
    assert!(matches!(plan.restart(false), Ok(false)));
}

#[test]
fn archiving_unconfigured_needs_settings_and_restart() {
    let plan = ArchivingPlan::decide(&s("minimal"), &s("off"), &None, &s("(disabled)"), "cmd").unwrap();
    assert_eq!(ArchivingPlan { set_wal_level: true, set_archive_mode: true, set_archive_command: true }, plan);
    assert!(matches!(plan.restart(true), Ok(true)));
    assert!(matches!(plan.restart(false), Err(BackupError::GeneralError(_))));
    let plan = ArchivingPlan::decide(&s("logical"), &s("always"), &None, &s(""), "cmd").unwrap();
    assert_eq!(ArchivingPlan { set_wal_level: false, set_archive_mode: false, set_archive_command: true }, plan);
}

#[test]
fn archiving_conflicts_are_errors() {
    assert!(matches!(ArchivingPlan::decide(&None, &s("on"), &None, &s(""), "cmd"), Err(BackupError::ConfigError(_))));
    assert!(matches!(ArchivingPlan::decide(&s("replica"), &None, &None, &s(""), "cmd"), Err(BackupError::ConfigError(_))));
    assert!(matches!(ArchivingPlan::decide(&s("replica"), &s("on"), &s("basic_archive"), &s(""), "cmd"), Err(BackupError::ConfigError(_))));
    assert!(matches!(ArchivingPlan::decide(&s("replica"), &s("on"), &None, &s("other"), "cmd"), Err(BackupError::ConfigError(_))));
    assert!(matches!(ArchivingPlan::decide(&s("replica"), &s("on"), &None, &None, "cmd"), Err(BackupError::ConfigError(_))));
}

#[test]
fn archive_and_restore_commands() {
    assert_eq!(
        "/usr/bin/pgdo backup:tools wal:archive %p /tmp/b/wal/%f",
        archive_command("/usr/bin/pgdo", "/tmp/b/wal").unwrap()
    );
    assert_eq!("cp /tmp/b/wal/%f %p", restore_command("/tmp/b/wal").unwrap());
    assert_eq!("cp ''/%f %p", restore_command("").unwrap());
}

#[test]
fn recovery_runs_without_archiving() {
    let settings = recovery_settings("cp x %p".to_string());
    let listed: Vec<(String, String)> =
        settings.iter().map(|(p, v)| (p.0.to_string(), v.to_string())).collect();
    assert_eq!(
        vec![
            ("archive_mode".to_string(), "off".to_string()),
            ("restore_command".to_string(), "cp x %p".to_string()),
            ("recovery_target".to_string(), "immediate".to_string()),
            ("recovery_target_action".to_string(), "shutdown".to_string()),
        ],
        listed
    );
    assert_eq!("archive_mode", archiving_off()[0].0 .0);
}

#[test]
fn restore_advice_picks_a_superuser() {
    let su = names(&["zed", "alice", "bob"]);
    assert_eq!(RestoreAdvice::RunDirectly, restore_advice(&su, Some("bob")));
    assert_eq!(RestoreAdvice::RunAs("alice".to_string()), restore_advice(&su, Some("carol")));
    assert_eq!(RestoreAdvice::RunAs("alice".to_string()), restore_advice(&su, None));
    assert_eq!(RestoreAdvice::NoSuperuser, restore_advice(&names(&[]), Some("carol")));
}

#[test]
fn wal_chunks_compare() {
    assert_eq!(ChunkVerdict::Same, compare_chunks(b"", b""));
    assert_eq!(ChunkVerdict::Advance(3), compare_chunks(b"abc", b"abc"));
    assert_eq!(ChunkVerdict::Differ, compare_chunks(b"abc", b"abd"));
    assert_eq!(ChunkVerdict::Differ, compare_chunks(b"abc", b""));
    assert_eq!(ChunkVerdict::Differ, compare_chunks(b"", b"abc"));
    // A short read on one side: compare what both hold, then go on.
    assert_eq!(ChunkVerdict::Advance(2), compare_chunks(b"abc", b"ab"));
    assert_eq!(ChunkVerdict::Advance(1), compare_chunks(b"a", b"abc"));
    assert_eq!(ChunkVerdict::Differ, compare_chunks(b"abc", b"ax"));
}

#[test]
fn backup_layout() {
    let b = pgdo::backup::Backup::new("/tmp/b");
    assert_eq!("/tmp/b", b.backup_dir);
    assert_eq!("/tmp/b/wal", b.backup_wal_dir);
}
