use neatd::config::{
    Action, ActionType, Config, ConfigPaths, ExecutionMode, General, Ignore, Layout, Log, LogType,
    Match, Naming, Report, ReportType, Rule, Safety,
};
use neatd::entry::{FileKind, FsEntry};
use neatd::matcher::{apply_rules_to_file, contains_folded, get_hash_set, rule_matches_ext};
use neatd::path::{FsPath, PathPart};
use neatd::validate::{validate_config, PathCheck, PathChecks, PathStatus, ValidationError};

fn rp(s: &str) -> FsPath {
    let mut parts = vec![PathPart::Root];
    for seg in s.split('/').filter(|x| !x.is_empty()) {
        parts.push(PathPart::Normal(seg.to_string()));
    }
    FsPath { parts }
}

fn entry(s: &str) -> FsEntry {
    FsEntry { path: rp(s), kind: FileKind::File, metadata: None, errors: Vec::new() }
}

fn ext_rule(name: &str, priority: i64, exts: &[&str]) -> Rule {
    Rule {
        name: name.to_string(),
        enabled: true,
        priority,
        criteria: Some(Match { extensions: Some(exts.iter().map(|e| e.to_string()).collect()), any: None }),
        action: Some(Action { kind: ActionType::Move, to: rp("/sorted"), use_layout: false }),
    }
}

fn any_rule(name: &str, priority: i64) -> Rule {
    Rule {
        name: name.to_string(),
        enabled: true,
        priority,
        criteria: Some(Match { extensions: None, any: Some(true) }),
        action: Some(Action { kind: ActionType::Copy, to: rp("/all"), use_layout: true }),
    }
}

fn with_rules(rules: Vec<Rule>) -> Config {
    Config {
        version: 1,
        created_by: "tester".to_string(),
        created_at: "today".to_string(),
        general: General { mode: ExecutionMode::run, default_action: ActionType::Move, recursive: true },
        paths: ConfigPaths { roots: vec![rp("/data")], state_dir: rp("/state"), quarantine: rp("/q") },
        ignore: Ignore { globs: Vec::new(), ignore_hidden: true, extensions: Vec::new() },
        naming: Naming { normalize_names: true },
        layout: Layout { date_source: "created".to_string(), date_format: "%Y/%m".to_string() },
        log: Log { level: LogType::Error },
        report: Report { format: ReportType::Analytics },
        safety: Safety { require_within_roots: false, allow_delete: true },
        rules,
    }
}

fn ok_check(s: &str) -> PathCheck {
    PathCheck { shown: s.to_string(), status: PathStatus::Directory }
}

fn checks_all_ok() -> PathChecks {
    PathChecks { roots: vec![ok_check("/data")], state_dir: ok_check("/state"), quarantine: ok_check("/q") }
}

fn messages(r: Result<(), Vec<ValidationError>>) -> Vec<String> {
    match r {
        Ok(()) => Vec::new(),
        Err(es) => es.iter().map(|e| e.to_string()).collect(),
    }
}

#[test]
fn example_c_priority_one_beats_two() {
    let c = with_rules(vec![ext_rule("imgs", 2, &["jpg"]), any_rule("any", 1)]);
    let w = apply_rules_to_file(&c, &entry("/data/photo.jpg")).unwrap();
    assert_eq!(c.rules[w].name, "any");
}

#[test]
fn extension_match_ignores_case() {
    let c = with_rules(vec![ext_rule("imgs", 4, &["JPG", "png"]), ext_rule("docs", 1, &["pdf"])]);
    let w = apply_rules_to_file(&c, &entry("/data/Photo.Jpg")).unwrap();
    assert_eq!(c.rules[w].name, "imgs");
    assert_eq!(apply_rules_to_file(&c, &entry("/data/notes.txt")), None);
    assert_eq!(apply_rules_to_file(&c, &entry("/data/README")), None);
}

#[test]
fn disabled_and_criteria_less_rules_never_match() {
    let mut off = any_rule("off", 0);
    off.enabled = false;
    let bare = Rule { name: "bare".to_string(), enabled: true, priority: -3, criteria: None, action: None };
    let c = with_rules(vec![off, bare, ext_rule("txt", 9, &["txt"])]);
    let w = apply_rules_to_file(&c, &entry("/data/a.txt")).unwrap();
    assert_eq!(c.rules[w].name, "txt");
    assert!(!rule_matches_ext(&c.rules[0], &Some("txt".to_string())));
    assert!(!rule_matches_ext(&c.rules[1], &Some("txt".to_string())));
}

#[test]
fn equal_priorities_pick_first() {
    let c = with_rules(vec![any_rule("first", 5), any_rule("second", 5)]);
    assert_eq!(apply_rules_to_file(&c, &entry("/data/x.bin")), Some(0));
}

#[test]
fn lowered_extension_set() {
    let set = get_hash_set(&vec!["JPG".to_string(), "Png".to_string(), "tar.GZ".to_string(), "é".to_string()]);
    assert_eq!(set, vec!["jpg", "png", "tar.gz", "é"]);
    assert!(contains_folded(&vec!["MP3".to_string()], &"mp3".to_string()));
    assert!(!contains_folded(&vec!["MP3".to_string()], &"mp4".to_string()));
}

#[test]
fn example_d_duplicate_priority_rejected() {
    let c = with_rules(vec![any_rule("a", 5), ext_rule("b", 5, &["txt"])]);
    let msgs = messages(validate_config(&c, true, &checks_all_ok()));
    assert_eq!(msgs, vec!["Invalid rule 'b'\nreason: Duplicate priority: 5"]);
}

#[test]
fn negative_duplicate_priority_shown() {
    let c = with_rules(vec![any_rule("a", -12), any_rule("b", 3), any_rule("c", -12)]);
    let msgs = messages(validate_config(&c, false, &checks_all_ok()));
    assert_eq!(msgs, vec!["Invalid rule 'c'\nreason: Duplicate priority: -12"]);
}

#[test]
fn valid_config_passes() {
    let c = with_rules(vec![any_rule("a", 1), ext_rule("b", 2, &["txt"])]);
    assert!(validate_config(&c, true, &checks_all_ok()).is_ok());
}

#[test]
fn every_problem_is_collected() {
    let no_criteria = Rule { name: "n".to_string(), enabled: true, priority: 1, criteria: None, action: None };
    let empty = Rule {
        name: "e".to_string(),
        enabled: false,
        priority: 2,
        criteria: Some(Match { extensions: None, any: Some(false) }),
        action: Some(Action { kind: ActionType::Delete, to: rp("/trash"), use_layout: false }),
    };
    let c = with_rules(vec![no_criteria, empty]);
    let checks = PathChecks {
        roots: vec![PathCheck { shown: "/gone".to_string(), status: PathStatus::Missing }],
        state_dir: PathCheck { shown: "/etc/file".to_string(), status: PathStatus::NotDirectory },
        quarantine: ok_check("/q"),
    };
    let msgs = messages(validate_config(&c, true, &checks));
    assert_eq!(
        msgs,
        vec![
            "Invalid path '/gone'\nreason: Path does not exist",
            "Invalid path '/etc/file'\nreason: Path exists but is not a directory",
            "Invalid rule 'n'\nreason: Rule is missing match criteria",
            "Invalid rule 'n'\nreason: Rule is missing action",
            "Invalid rule 'e'\nreason: Rule must have at least one match criteria (extensions or any)",
        ]
    );
    let unchecked = messages(validate_config(&c, false, &checks));
    assert_eq!(unchecked.len(), 4);
}

#[test]
fn messages_of_each_error() {
    let e = ValidationError::MissingField { field: "roots".to_string(), section: "paths".to_string() };
    assert_eq!(e.to_string(), "Missing required field 'roots' in section '[paths]'");
    let e = ValidationError::InvalidType {
        field: "recursive".to_string(),
        section: "general".to_string(),
        expected: "bool".to_string(),
        got: "string".to_string(),
    };
    assert_eq!(e.to_string(), "Invalid type at field 'recursive' in section '[general]'\nExpected: bool\tGot: string");
    let e = ValidationError::InvalidEnumValue {
        field: "mode".to_string(),
        section: "general".to_string(),
        expected: vec!["dry_run".to_string(), "run".to_string()],
        got: "walk".to_string(),
    };
    assert_eq!(e.to_string(), "Invalid value at field 'mode' in section '[general]'\nExpected: dry_run,run\tGot: walk");
    let e = ValidationError::InvalidGlob { pattern: "[".to_string(), reason: "unclosed".to_string() };
    assert_eq!(e.to_string(), "Invalid glob pattern '['\nreason: unclosed");
}
