use media_catalog::backup::{
    backup_file_name, compact_stamp, matches_backup_name, plan_backup_rotation, BackupEntry,
    ClockParts,
};

fn entry(name: &str, modified: u64) -> BackupEntry {
    BackupEntry { name: name.to_string(), modified }
}

#[test]
fn rotation_keeps_the_five_most_recent() {
    // eight startup cycles left eight backups; the rotation keeps the five
    // most recent by modification time and removes the three oldest
    let entries = vec![
        entry("lib_20260101_000000.bin", 1),
        entry("lib_20260105_000000.bin", 5),
        entry("lib_20260102_000000.bin", 2),
        entry("lib_20260108_000000.bin", 8),
        entry("lib_20260103_000000.bin", 3),
        entry("lib_20260106_000000.bin", 6),
        entry("lib_20260104_000000.bin", 4),
        entry("lib_20260107_000000.bin", 7),
    ];
    let (kept, removed) = plan_backup_rotation(entries);
    assert_eq!(kept.len(), 5);
    assert_eq!(removed.len(), 3);
    let mut removed_names: Vec<String> = removed.iter().map(|e| e.name.clone()).collect();
    removed_names.sort();
    assert_eq!(
        removed_names,
        vec![
            "lib_20260101_000000.bin".to_string(),
            "lib_20260102_000000.bin".to_string(),
            "lib_20260103_000000.bin".to_string(),
        ]
    );
    for k in &kept {
        for r in &removed {
            assert!(k.modified >= r.modified);
        }
    }
}

#[test]
fn rotation_keeps_everything_at_or_under_five() {
    let entries = vec![entry("lib_a.bin", 3), entry("lib_b.bin", 1)];
    let (kept, removed) = plan_backup_rotation(entries);
    assert_eq!(kept.len(), 2);
    assert!(removed.is_empty());

    let five: Vec<BackupEntry> = (0..5u64).map(|k| entry("lib_x.bin", k)).collect();
    let (kept5, removed5) = plan_backup_rotation(five);
    assert_eq!(kept5.len(), 5);
    assert!(removed5.is_empty());
}

#[test]
fn backup_names_are_timestamped_and_recognized() {
    let p = ClockParts { year: 2026, month: 1, day: 9, hour: 23, minute: 5, second: 0 };
    let name = backup_file_name("lib", "bin", &p);
    assert_eq!(name, "lib_20260109_230500.bin");
    assert!(matches_backup_name(&name, "lib", "bin"));
    assert!(!matches_backup_name("lib.bin", "lib", "bin"));
    assert!(!matches_backup_name("other_20260109_230500.bin", "lib", "bin"));
    assert!(!matches_backup_name("lib_20260109_230500.json", "lib", "bin"));
    assert_eq!(compact_stamp(&p), "20260109230500");
}

#[test]
fn clock_fields_are_zero_padded() {
    let p = ClockParts { year: 987, month: 12, day: 31, hour: 0, minute: 59, second: 9 };
    assert_eq!(backup_file_name("lib", "bin", &p), "lib_09871231_005909.bin");
    let neg = ClockParts { year: -5, month: 2, day: 3, hour: 4, minute: 5, second: 6 };
    assert_eq!(compact_stamp(&neg), "00000203040506");
}
