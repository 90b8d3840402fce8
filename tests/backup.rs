use daystore::backup::{
    backup_file_name, backups_to_prune, has_store_extension, BackupEntry, BackupManager, Timestamp,
    MAX_BACKUPS,
};

fn entry(name: &str, created: Option<u128>) -> BackupEntry {
    BackupEntry { name: name.to_string(), created }
}

#[test]
fn backup_name_is_fixed_width() {
    let t = Timestamp { year: 2024, month: 1, day: 2, hour: 3, minute: 4, second: 5 };
    assert_eq!(backup_file_name(&t), "backup_20240102_030405.db");
    let t = Timestamp { year: 999, month: 12, day: 31, hour: 23, minute: 59, second: 59 };
    assert_eq!(backup_file_name(&t), "backup_09991231_235959.db");
}

#[test]
fn store_extension_is_recognised() {
    assert!(has_store_extension(&"backup_20240102_030405.db".to_string()));
    assert!(has_store_extension(&"a.db".to_string()));
    assert!(!has_store_extension(&".db".to_string()));
    assert!(!has_store_extension(&"a.db.bak".to_string()));
    assert!(!has_store_extension(&"notes.txt".to_string()));
    assert!(!has_store_extension(&"db".to_string()));
}

#[test]
fn twelve_backups_keep_ten_newest() {
    let entries: Vec<BackupEntry> =
        (0..12).map(|i| entry(&format!("backup_{:02}.db", i), Some(1000 + i as u128))).collect();
    let mut pruned = backups_to_prune(&entries);
    pruned.sort();
    assert_eq!(pruned, vec![0, 1]);
    assert_eq!(entries.len() - pruned.len(), MAX_BACKUPS);
}

#[test]
fn pruning_ignores_order_found() {
    let times = [50u128, 10, 70, 20, 90, 30, 110, 40, 60, 80, 100, 5];
    let entries: Vec<BackupEntry> =
        times.iter().enumerate().map(|(i, t)| entry(&format!("b{}.db", i), Some(*t))).collect();
    let mut pruned = backups_to_prune(&entries);
    pruned.sort();
    // the two oldest are 5 (index 11) and 10 (index 1)
    assert_eq!(pruned, vec![1, 11]);
}

#[test]
fn few_backups_are_all_kept() {
    let entries: Vec<BackupEntry> = (0..10).map(|i| entry("x.db", Some(i))).collect();
    assert!(backups_to_prune(&entries).is_empty());
    assert!(backups_to_prune(&Vec::new()).is_empty());
}

#[test]
fn unknown_times_and_other_files_are_never_pruned() {
    let mut entries: Vec<BackupEntry> = (0..11).map(|i| entry("x.db", Some(100 + i))).collect();
    entries.push(entry("old.db", None));
    entries.push(entry("notes.txt", Some(1)));
    entries.push(entry("older.db-journal", Some(2)));
    let pruned = backups_to_prune(&entries);
    assert_eq!(pruned, vec![0]);
}

#[test]
fn manager_reports_its_directory() {
    let m = BackupManager::new("/data/backups".to_string());
    assert_eq!(m.get_backup_dir(), "/data/backups");
}
