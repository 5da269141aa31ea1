use backup_bundler::paths::{append_to_last, build_full_backup_path, FsPath};
use backup_bundler::timestamp::{format_timestamp, generate_bundled_name, now_timestamp, Timestamp};

fn path(absolute: bool, comps: &[&str]) -> FsPath {
    FsPath { absolute, comps: comps.iter().map(|c| c.to_string()).collect() }
}

fn midnight_2024() -> Timestamp {
    Timestamp { year: 2024, month: 1, day: 1, hour: 0, minute: 0, second: 0 }
}

#[test]
fn mapping_is_deterministic() {
    let source = path(true, &["home", "matty", ".ssh"]);
    let root = path(false, &[".", "system-backup-2024-01-01_00-00-00"]);
    let first = build_full_backup_path(&source, &root);
    let second = build_full_backup_path(&source, &root);
    assert_eq!(first, second);
}

#[test]
fn mapping_strips_root_and_joins() {
    let source = path(true, &["home", "user", ".ssh", "id_rsa"]);
    let root = path(false, &[".", "system-backup-2024-01-01_00-00-00"]);
    let dest = build_full_backup_path(&source, &root);
    assert_eq!(
        dest,
        path(
            false,
            &[".", "system-backup-2024-01-01_00-00-00", "home", "user", ".ssh", "id_rsa"],
        )
    );
}

#[test]
fn mapping_passes_relative_source_through() {
    let source = path(false, &["notes", "todo.txt"]);
    let root = path(false, &["staging"]);
    let dest = build_full_backup_path(&source, &root);
    assert_eq!(dest, path(false, &["staging", "notes", "todo.txt"]));
}

#[test]
fn mapping_preserves_prefixes() {
    let p1 = path(true, &["home", "matty"]);
    let p2 = path(true, &["home", "matty", ".ssh", "id_rsa"]);
    let root = path(false, &["staging"]);
    let d1 = build_full_backup_path(&p1, &root);
    let d2 = build_full_backup_path(&p2, &root);
    assert!(d2.comps.len() >= d1.comps.len());
    assert_eq!(&d2.comps[..d1.comps.len()], &d1.comps[..]);
    assert_eq!(d1.absolute, d2.absolute);
}

#[test]
fn timestamp_renders_zero_padded() {
    let t = midnight_2024();
    assert_eq!(format_timestamp(&t), "2024-01-01_00-00-00");
}

#[test]
fn timestamp_renders_all_fields() {
    let t = Timestamp { year: 987, month: 12, day: 31, hour: 23, minute: 59, second: 7 };
    assert_eq!(format_timestamp(&t), "0987-12-31_23-59-07");
}

#[test]
fn bundled_name_appends_timestamp_to_base() {
    let base = path(false, &[".", "system-backup"]);
    let root = generate_bundled_name(&base, &midnight_2024());
    assert_eq!(root, path(false, &[".", "system-backup-2024-01-01_00-00-00"]));
}

#[test]
fn append_to_last_touches_only_final_component() {
    let p = path(false, &["dir", "file"]);
    assert_eq!(append_to_last(&p, ".tar"), path(false, &["dir", "file.tar"]));
    let empty = path(false, &[]);
    assert_eq!(append_to_last(&empty, ".tar"), path(false, &[".tar"]));
}

#[test]
fn clock_fields_stay_in_documented_ranges() {
    let t = now_timestamp();
    assert!((1..=12).contains(&t.month));
    assert!((1..=31).contains(&t.day));
    assert!(t.hour <= 23);
    assert!(t.minute <= 59);
    assert!(t.second <= 59);
}
