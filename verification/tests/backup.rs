use city_tiles_pos::clock::{format_compact_stamp, UtcStamp};
use city_tiles_pos::commands::backup::{check_restore_probe, export_file_name, is_backup_name, order_backups,
    pre_restore_file_name, required_tables, sql_literal, vacuum_into, BackupInfo};
use city_tiles_pos::database::sqlite_url;
use city_tiles_pos::error::AppError;
use city_tiles_pos::services::backup::is_export_name;

fn info(path: &str, created: u64) -> BackupInfo {
    BackupInfo { path: path.into(), name: path.into(), size: 1, created }
}

#[test]
fn paths_are_quoted_as_sql_literals() {
    assert_eq!(sql_literal("C:\\Data\\x.sqlite"), "'C:\\Data\\x.sqlite'");
    assert_eq!(sql_literal("O'Brien's.sqlite"), "'O''Brien''s.sqlite'");
    assert_eq!(vacuum_into("a'b"), "VACUUM INTO 'a''b'");
}

#[test]
fn snapshot_names_are_recognised_as_backups() {
    let stamp = format_compact_stamp(UtcStamp { year: 2026, month: 8, day: 3, hour: 4, minute: 5, second: 6 });
    assert_eq!(stamp, "20260803_040506");
    let e = export_file_name(&stamp);
    assert_eq!(e, "citytiles_backup_20260803_040506.sqlite");
    let p = pre_restore_file_name(&stamp);
    assert_eq!(p, "pre_restore_20260803_040506.sqlite");
    assert!(is_backup_name(&e));
    assert!(is_backup_name(&p));
    assert!(is_export_name(&e));
    assert!(!is_export_name(&p));
    assert!(!is_backup_name("citytiles.db"));
    assert!(!is_backup_name("citytiles_backup_1.sqlite-journal"));
}

#[test]
fn restore_probe_needs_integrity_and_all_tables() {
    assert_eq!(required_tables().len(), 7);
    assert!(check_restore_probe("ok", 7).is_ok());
    match check_restore_probe("*** in database main ***", 7) {
        Err(AppError::Internal(m)) => assert_eq!(m, "Backup failed integrity check (*** in database main ***)"),
        other => panic!("unexpected {:?}", other),
    }
    match check_restore_probe("ok", 6) {
        Err(AppError::Internal(m)) => assert_eq!(m, "File does not look like a CityTiles database"),
        other => panic!("unexpected {:?}", other),
    }
}

#[test]
fn backups_are_listed_newest_first_without_repeats() {
    let found = vec![info("a", 10), info("b", 30), info("c", 20), info("b", 30), info("d", 20)];
    let listed = order_backups(found);
    let paths: Vec<&str> = listed.iter().map(|b| b.path.as_str()).collect();
    assert_eq!(paths, vec!["b", "c", "d", "a"]);
}

#[test]
fn database_urls_use_forward_slashes() {
    assert_eq!(sqlite_url("C:\\ProgramData\\CityTiles\\citytiles.db", "rwc"),
        "sqlite:C:/ProgramData/CityTiles/citytiles.db?mode=rwc");
    assert_eq!(sqlite_url("/tmp/x.sqlite", "ro"), "sqlite:/tmp/x.sqlite?mode=ro");
}
