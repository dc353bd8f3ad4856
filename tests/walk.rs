use neatd::classify::{classify, name_extension, set_entry_kind};
use neatd::entry::{parse_errors, EntryError, EntryOp, FileKind, FsEntry, Log, Outcome, Severity};
use neatd::path::{FsPath, PathPart};
use neatd::policy::EffectivePolicy;
use neatd::walk::{ChildInfo, Failure, Listing, Walker};

fn wp(s: &str) -> FsPath {
    let mut parts = vec![PathPart::Root];
    for seg in s.split('/').filter(|x| !x.is_empty()) {
        parts.push(PathPart::Normal(seg.to_string()));
    }
    FsPath { parts }
}

fn same(a: &FsPath, b: &str) -> bool {
    a.same_as(&wp(b))
}

fn policy(inc: &[&str], exc: &[&str]) -> EffectivePolicy {
    let mut p = EffectivePolicy { effective_includes: Vec::new(), effective_excludes: Vec::new() };
    p.set_effective_policy(inc.iter().map(|s| wp(s)).collect(), exc.iter().map(|s| wp(s)).collect());
    p
}

fn dir(s: &str) -> ChildInfo {
    ChildInfo { path: wp(s), is_dir: true, is_symlink: false, failure: None }
}

fn file(s: &str) -> ChildInfo {
    ChildInfo { path: wp(s), is_dir: false, is_symlink: false, failure: None }
}

fn fatal() -> Failure {
    Failure { message: Some("permission denied".to_string()), severity: Severity::Fatal, retries: 0 }
}

#[test]
fn fault_isolation_sibling_still_visited() {
    let mut w = Walker::new(policy(&["/data"], &[]));
    let root = w.next_dir().unwrap();
    assert!(same(&root, "/data"));
    w.visit_listing(&root, Listing::Listed(vec![dir("/data/broken"), dir("/data/ok")]));
    let next = w.next_dir().unwrap();
    assert!(same(&next, "/data/ok"));
    w.visit_listing(&next, Listing::Listed(vec![file("/data/ok/a.txt")]));
    let broken = w.next_dir().unwrap();
    assert!(same(&broken, "/data/broken"));
    w.visit_listing(&broken, Listing::Failed(fatal()));
    assert!(w.is_done());
    assert_eq!(w.records.len(), 4);
    let ok = &w.records[2];
    assert!(same(&ok.entry.path, "/data/ok/a.txt"));
    assert_eq!(ok.log, Log::Success);
    assert_eq!(ok.entry.kind, FileKind::File);
    let failed = &w.records[3];
    assert!(same(&failed.entry.path, "/data/broken"));
    assert_eq!(failed.log, Log::UnknownError);
    assert_eq!(failed.entry.errors.len(), 1);
    assert_eq!(failed.entry.errors[0].operation, EntryOp::ReadDir);
    assert_eq!(failed.entry.errors[0].severity, Severity::Fatal);
    assert_eq!(failed.entry.errors[0].outcome, Outcome::Aborted);
}

#[test]
fn failed_listing_keeps_pending_directories() {
    let mut w = Walker::new(policy(&["/a", "/b"], &[]));
    let first = w.next_dir().unwrap();
    assert!(same(&first, "/a"));
    w.visit_listing(&first, Listing::Failed(Failure { message: None, severity: Severity::Error, retries: 2 }));
    assert_eq!(w.pending.len(), 1);
    assert!(same(&w.pending[0], "/b"));
    assert_eq!(w.records[0].entry.errors[0].outcome, Outcome::Retried(2));
    w.visit_listing(&first, Listing::Failed(Failure { message: None, severity: Severity::Warning, retries: 0 }));
    assert_eq!(w.records[1].entry.errors[0].outcome, Outcome::Skipped);
}

#[test]
fn excluded_children_are_not_walked() {
    let mut w = Walker::new(policy(&["/data"], &["/data/tmp", "/data/skip.txt"]));
    let root = w.next_dir().unwrap();
    w.visit_listing(
        &root,
        Listing::Listed(vec![
            dir("/data/tmp"),
            file("/data/skip.txt"),
            file("/data/keep.txt"),
            ChildInfo { path: wp("/data/link"), is_dir: false, is_symlink: true, failure: None },
            ChildInfo {
                path: wp("/data/odd"),
                is_dir: false,
                is_symlink: false,
                failure: Some(Failure { message: None, severity: Severity::Warning, retries: 0 }),
            },
        ]),
    );
    assert!(w.is_done());
    let logs: Vec<Log> = w.records.iter().map(|r| r.log).collect();
    assert_eq!(
        logs,
        vec![Log::CannotDescend, Log::CannotProcess, Log::Success, Log::Success, Log::UnknownError]
    );
    assert_eq!(w.records[3].entry.kind, FileKind::Symlink);
    assert_eq!(w.records[4].entry.kind, FileKind::Other);
    assert_eq!(w.records[4].entry.errors[0].operation, EntryOp::Metadata);
}

#[test]
fn roots_listed_in_order() {
    let mut w = Walker::new(policy(&["/r1", "/r2", "/r3"], &[]));
    assert!(same(&w.next_dir().unwrap(), "/r1"));
    assert!(same(&w.next_dir().unwrap(), "/r2"));
    assert!(same(&w.next_dir().unwrap(), "/r3"));
    assert!(w.next_dir().is_none());
}

#[test]
fn classification_is_syntactic() {
    assert_eq!(classify(true, false, &wp("/x/dir.d")), FileKind::Directory);
    assert_eq!(classify(false, true, &wp("/x/link.txt")), FileKind::Symlink);
    assert_eq!(classify(false, false, &wp("/x/photo.JPG")), FileKind::File);
    assert_eq!(classify(false, false, &wp("/x/README")), FileKind::Other);
    assert_eq!(classify(false, false, &wp("/x/.bashrc")), FileKind::Other);
    assert_eq!(classify(false, false, &wp("/x/.config.toml")), FileKind::File);
}

#[test]
fn extension_after_last_dot() {
    assert_eq!(name_extension("archive.tar.gz"), Some("gz".to_string()));
    assert_eq!(name_extension("trailing."), Some("".to_string()));
    assert_eq!(name_extension(".hidden"), None);
    assert_eq!(name_extension("plain"), None);
}

#[test]
fn entry_kind_is_set() {
    let mut e = FsEntry { path: wp("/x/song.mp3"), kind: FileKind::Other, metadata: None, errors: Vec::new() };
    set_entry_kind(&mut e, false, false);
    assert_eq!(e.kind, FileKind::File);
    set_entry_kind(&mut e, true, false);
    assert_eq!(e.kind, FileKind::Directory);
}

#[test]
fn parse_errors_defaults_to_skipped_warning() {
    let e = parse_errors(&wp("/bad"), None);
    assert_eq!(e.operation, EntryOp::ParsePath);
    assert_eq!(e.severity, Severity::Warning);
    assert_eq!(e.outcome, Outcome::Skipped);
    assert!(e.source.is_none());
    let given = EntryError {
        path: wp("/x"),
        operation: EntryOp::Open,
        source: Some("gone".to_string()),
        severity: Severity::Error,
        outcome: Outcome::Retried(1),
    };
    let kept = parse_errors(&wp("/bad"), Some(given));
    assert_eq!(kept.operation, EntryOp::Open);
    assert_eq!(kept.source, Some("gone".to_string()));
}
