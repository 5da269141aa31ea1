use backup_bundler::bundler::{
    plan_file_copy, summarize, Action, BundleError, ChildEntry, CopyError, EntryKind, Walk,
};
use backup_bundler::paths::{to_display_string, FsPath};
use backup_bundler::timestamp::Timestamp;

fn path(absolute: bool, comps: &[&str]) -> FsPath {
    FsPath { absolute, comps: comps.iter().map(|c| c.to_string()).collect() }
}

fn midnight_2024() -> Timestamp {
    Timestamp { year: 2024, month: 1, day: 1, hour: 0, minute: 0, second: 0 }
}

fn file(name: &str) -> ChildEntry {
    ChildEntry::File { name: name.to_string() }
}

fn dir(name: &str, canon: &str) -> ChildEntry {
    ChildEntry::Dir { name: name.to_string(), canon: canon.to_string() }
}

fn other(name: &str) -> ChildEntry {
    ChildEntry::Other { name: name.to_string() }
}

#[test]
fn relative_source_is_rejected_untouched() {
    let source = path(false, &["home", "matty"]);
    let base = path(false, &[".", "system-backup"]);
    let r = Walk::begin(&source, EntryKind::Directory, String::new(), &base, &midnight_2024());
    assert_eq!(r.err(), Some(BundleError::NotAbsolute));
}

#[test]
fn top_level_file_copies_under_created_parent() {
    let source = path(true, &["etc", "hostname"]);
    let base = path(false, &[".", "system-backup"]);
    let w = Walk::begin(
        &source,
        EntryKind::RegularFile,
        String::new(),
        &base,
        &midnight_2024(),
    )
    .unwrap();
    assert!(w.pending.is_empty());
    let staged = &[".", "system-backup-2024-01-01_00-00-00"];
    assert_eq!(
        w.actions,
        vec![
            Action::CreateDir { dest: path(false, &[staged[0], staged[1], "etc"]) },
            Action::CopyFile {
                source: source,
                dest: path(false, &[staged[0], staged[1], "etc", "hostname"]),
            },
        ]
    );
}

#[test]
fn top_level_non_regular_entry_is_skipped_not_an_error() {
    let source = path(true, &["dev", "sda"]);
    let base = path(false, &[".", "system-backup"]);
    let w =
        Walk::begin(&source, EntryKind::Other, String::new(), &base, &midnight_2024()).unwrap();
    assert!(w.pending.is_empty());
    assert_eq!(w.actions, vec![Action::Skip { source }]);
}

#[test]
fn ssh_directory_scenario_mirrors_both_keys() {
    let source = path(true, &["home", "matty", ".ssh"]);
    let base = path(false, &[".", "system-backup"]);
    let mut w = Walk::begin(
        &source,
        EntryKind::Directory,
        "/home/matty/.ssh".to_string(),
        &base,
        &midnight_2024(),
    )
    .unwrap();
    assert_eq!(
        w.root,
        path(false, &[".", "system-backup-2024-01-01_00-00-00"])
    );
    assert_eq!(w.next_source(), Some(path(true, &["home", "matty", ".ssh"])));
    w.process_dir(vec![file("id_rsa"), file("id_rsa.pub")]);
    assert!(w.done());
    assert_eq!(
        to_display_string(&w.root),
        "./system-backup-2024-01-01_00-00-00"
    );
    match &w.actions[1] {
        Action::CopyFile { source, dest } => {
            assert_eq!(to_display_string(source), "/home/matty/.ssh/id_rsa");
            assert_eq!(
                to_display_string(dest),
                "./system-backup-2024-01-01_00-00-00/home/matty/.ssh/id_rsa"
            );
        }
        action => panic!("expected a copy, found {:?}", action),
    }
    let mirrored = &[".", "system-backup-2024-01-01_00-00-00", "home", "matty", ".ssh"];
    assert_eq!(
        w.actions,
        vec![
            Action::CreateDir { dest: path(false, mirrored) },
            Action::CopyFile {
                source: path(true, &["home", "matty", ".ssh", "id_rsa"]),
                dest: path(false, &[mirrored[0], mirrored[1], mirrored[2], mirrored[3], mirrored[4], "id_rsa"]),
            },
            Action::CopyFile {
                source: path(true, &["home", "matty", ".ssh", "id_rsa.pub"]),
                dest: path(false, &[mirrored[0], mirrored[1], mirrored[2], mirrored[3], mirrored[4], "id_rsa.pub"]),
            },
        ]
    );
}

#[test]
fn nested_tree_is_reconstructed_at_correct_offsets() {
    let source = path(true, &["srcdir"]);
    let base = path(false, &["staging"]);
    let mut w = Walk::begin(
        &source,
        EntryKind::Directory,
        "/srcdir".to_string(),
        &base,
        &midnight_2024(),
    )
    .unwrap();
    w.process_dir(vec![file("a"), file("b"), dir("c", "/srcdir/c")]);
    assert!(!w.done());
    assert_eq!(w.next_source(), Some(path(true, &["srcdir", "c"])));
    w.process_dir(vec![file("d")]);
    assert!(w.done());
    let root = "staging-2024-01-01_00-00-00";
    assert_eq!(
        w.actions,
        vec![
            Action::CreateDir { dest: path(false, &[root, "srcdir"]) },
            Action::CopyFile {
                source: path(true, &["srcdir", "a"]),
                dest: path(false, &[root, "srcdir", "a"]),
            },
            Action::CopyFile {
                source: path(true, &["srcdir", "b"]),
                dest: path(false, &[root, "srcdir", "b"]),
            },
            Action::CreateDir { dest: path(false, &[root, "srcdir", "c"]) },
            Action::CopyFile {
                source: path(true, &["srcdir", "c", "d"]),
                dest: path(false, &[root, "srcdir", "c", "d"]),
            },
        ]
    );
}

#[test]
fn self_referential_directory_entry_terminates_walk() {
    let source = path(true, &["looped"]);
    let base = path(false, &["staging"]);
    let mut w = Walk::begin(
        &source,
        EntryKind::Directory,
        "/looped".to_string(),
        &base,
        &midnight_2024(),
    )
    .unwrap();
    let mut steps = 0usize;
    while !w.done() {
        // every enumeration reports the directory itself plus an alias of it,
        // as a symlink cycle would
        w.process_dir(vec![dir("looped", "/looped"), dir("self-alias", "/looped")]);
        steps += 1;
        assert!(steps < 1000, "walk failed to terminate on a self-reference");
    }
    assert_eq!(steps, 1);
    assert_eq!(
        w.actions,
        vec![Action::CreateDir {
            dest: path(false, &["staging-2024-01-01_00-00-00", "looped"]),
        }]
    );
}

#[test]
fn non_regular_child_is_skipped_and_absent_from_output() {
    let source = path(true, &["spool"]);
    let base = path(false, &["staging"]);
    let mut w = Walk::begin(
        &source,
        EntryKind::Directory,
        "/spool".to_string(),
        &base,
        &midnight_2024(),
    )
    .unwrap();
    w.process_dir(vec![file("log"), other("socket")]);
    assert!(w.done());
    let root = "staging-2024-01-01_00-00-00";
    assert_eq!(
        w.actions,
        vec![
            Action::CreateDir { dest: path(false, &[root, "spool"]) },
            Action::CopyFile {
                source: path(true, &["spool", "log"]),
                dest: path(false, &[root, "spool", "log"]),
            },
            Action::Skip { source: path(true, &["spool", "socket"]) },
        ]
    );
}

#[test]
fn copy_primitive_rejects_a_directory() {
    let source = path(true, &["etc"]);
    let dest = path(false, &["staging"]);
    let r = plan_file_copy(&source, EntryKind::Directory, &dest);
    assert_eq!(r.err(), Some(CopyError::NotAFile));
}

#[test]
fn copy_primitive_skips_source_without_final_component() {
    let source = path(true, &[]);
    let dest = path(false, &["staging"]);
    let r = plan_file_copy(&source, EntryKind::RegularFile, &dest);
    assert_eq!(r.ok(), Some(Action::Skip { source: path(true, &[]) }));
}

#[test]
fn one_failed_copy_among_ten_yields_one_warning() {
    let source = path(true, &["docs"]);
    let base = path(false, &["staging"]);
    let mut w = Walk::begin(
        &source,
        EntryKind::Directory,
        "/docs".to_string(),
        &base,
        &midnight_2024(),
    )
    .unwrap();
    let children: Vec<ChildEntry> = (0..10).map(|i| file(&format!("f{}", i))).collect();
    w.process_dir(children);
    assert!(w.done());
    // nine copies succeed, the fourth is unreadable
    let outcomes: Vec<bool> = (0..10).map(|i| i != 3).collect();
    let report = summarize(&w.actions, &outcomes);
    assert_eq!(report.copied, 9);
    assert_eq!(report.copy_failures, 1);
    assert_eq!(report.skipped, 0);
}

#[test]
fn report_counts_skips_separately_from_failures() {
    let actions = vec![
        Action::CreateDir { dest: path(false, &["staging"]) },
        Action::CopyFile {
            source: path(true, &["a"]),
            dest: path(false, &["staging", "a"]),
        },
        Action::Skip { source: path(true, &["sock"]) },
    ];
    let report = summarize(&actions, &vec![true]);
    assert_eq!(report.copied, 1);
    assert_eq!(report.copy_failures, 0);
    assert_eq!(report.skipped, 1);
}
