use neatd::config::{
    Action, ActionType, Config, ConfigPaths, ExecutionMode, General, Ignore, Layout, Log, LogType,
    Match, Naming, Report, ReportType, Rule, Safety,
};
use neatd::field_errors::{validate_config, ValidationError};
use neatd::path::{FsPath, PathPart};

fn root_only() -> FsPath {
    FsPath { parts: vec![PathPart::Root, PathPart::Normal("srv".to_string())] }
}

fn make(roots: Vec<FsPath>, rules: Vec<Rule>) -> Config {
    Config {
        version: 2,
        created_by: "me".to_string(),
        created_at: "now".to_string(),
        general: General { mode: ExecutionMode::dry_run, default_action: ActionType::Copy, recursive: false },
        paths: ConfigPaths { roots, state_dir: root_only(), quarantine: root_only() },
        ignore: Ignore { globs: vec!["*.tmp".to_string()], ignore_hidden: true, extensions: Vec::new() },
        naming: Naming { normalize_names: false },
        layout: Layout { date_source: "modified".to_string(), date_format: "%Y".to_string() },
        log: Log { level: LogType::Success },
        report: Report { format: ReportType::SpreadSheet },
        safety: Safety { require_within_roots: true, allow_delete: false },
        rules,
    }
}

fn good_rule(name: &str, priority: i64) -> Rule {
    Rule {
        name: name.to_string(),
        enabled: true,
        priority,
        criteria: Some(Match { extensions: Some(vec!["txt".to_string()]), any: None }),
        action: Some(Action { kind: ActionType::Copy, to: root_only(), use_layout: false }),
    }
}

#[test]
fn empty_roots_reported_with_fix() {
    let errs = validate_config(&make(Vec::new(), vec![good_rule("a", 1)])).unwrap_err();
    assert_eq!(errs.len(), 1);
    assert_eq!(errs[0].field, "roots");
    assert_eq!(errs[0].section, "paths");
    assert!(errs[0].suggested_fix.is_some());
}

#[test]
fn duplicate_priority_names_field_and_section() {
    let errs = validate_config(&make(vec![root_only()], vec![good_rule("a", 5), good_rule("b", 5)])).unwrap_err();
    assert_eq!(errs.len(), 1);
    assert_eq!(errs[0].message, "Duplicate priority: 5");
    assert_eq!(errs[0].field, "priority");
    assert_eq!(errs[0].section, "rules[1]");
}

#[test]
fn rule_without_criteria_or_action() {
    let mut empty_exts = good_rule("c", 3);
    empty_exts.criteria = Some(Match { extensions: Some(Vec::new()), any: Some(false) });
    let bare = Rule { name: "d".to_string(), enabled: true, priority: 4, criteria: None, action: None };
    let errs = validate_config(&make(vec![root_only()], vec![empty_exts, bare])).unwrap_err();
    let got: Vec<(String, String)> = errs.iter().map(|e| (e.field.clone(), e.section.clone())).collect();
    assert_eq!(
        got,
        vec![
            ("match".to_string(), "rules[0]".to_string()),
            ("match".to_string(), "rules[1]".to_string()),
            ("action".to_string(), "rules[1]".to_string()),
        ]
    );
    assert_eq!(errs[0].suggested_fix, Some("Add extensions or set any = true".to_string()));
}

#[test]
fn valid_config_has_no_field_errors() {
    assert!(validate_config(&make(vec![root_only()], vec![good_rule("a", 1), good_rule("b", 2)])).is_ok());
}

#[test]
fn formatted_error_text() {
    let e = ValidationError::new("bad".to_string(), "to".to_string(), "rules[12]".to_string());
    assert_eq!(e.format(), "\u{274c} Field 'to' in section '[rules[12]]': bad");
    let f = ValidationError::with_fix("x".to_string(), "f".to_string(), "s".to_string(), "do y".to_string());
    assert_eq!(f.format(), "\u{274c} Field 'f' in section '[s]': x\n   \u{1f4a1} Fix: do y");
}
