use vstd::prelude::*;

use crate::path::FsPath;

verus! {

/// The whole configuration of one invocation.
pub struct Config {
    pub version: i64,
    pub created_by: String,
    pub created_at: String,
    pub general: General,
    pub paths: ConfigPaths,
    pub ignore: Ignore,
    pub naming: Naming,
    pub layout: Layout,
    pub log: Log,
    pub report: Report,
    pub safety: Safety,
    pub rules: Vec<Rule>,
}

/// The `[general]` section.
pub struct General {
    pub mode: ExecutionMode,
    pub default_action: ActionType,
    pub recursive: bool,
}

/// Whether actions are only shown or also carried out.
#[allow(non_camel_case_types)]
#[derive(Clone, Copy, PartialEq, Eq, Structural, Debug)]
pub enum ExecutionMode {
    dry_run,
    run,
}

/// What a rule does with a matching file.
#[derive(Clone, Copy, PartialEq, Eq, Structural, Debug)]
pub enum ActionType {
    Copy,
    Move,
    Delete,
}

/// The `[paths]` section: scan roots and the directories the tool owns.
pub struct ConfigPaths {
    pub roots: Vec<FsPath>,
    pub state_dir: FsPath,
    pub quarantine: FsPath,
}

/// The `[paths]` section under its short name.
pub type Paths = ConfigPaths;

/// The `[ignore]` section.
pub struct Ignore {
    pub globs: Vec<String>,
    pub ignore_hidden: bool,
    pub extensions: Vec<String>,
}

/// The `[naming]` section.
pub struct Naming {
    pub normalize_names: bool,
}

/// The `[layout]` section.
pub struct Layout {
    pub date_source: String,
    pub date_format: String,
}

/// The `[log]` section.
pub struct Log {
    pub level: LogType,
}

/// How much is logged.
#[derive(Clone, Copy, PartialEq, Eq, Structural, Debug)]
pub enum LogType {
    Info,
    Error,
    Success,
}

/// The `[report]` section.
pub struct Report {
    pub format: ReportType,
}

/// The form of the report.
#[derive(Clone, Copy, PartialEq, Eq, Structural, Debug)]
pub enum ReportType {
    Text,
    SpreadSheet,
    Analytics,
}

/// The `[safety]` section.
pub struct Safety {
    pub require_within_roots: bool,
    pub allow_delete: bool,
}

/// One organizing rule.
pub struct Rule {
    pub name: String,
    pub enabled: bool,
    pub priority: i64,
    pub criteria: Option<Match>,
    pub action: Option<Action>,
}

/// The match criteria of a rule: extensions, or the match-any flag.
pub struct Match {
    pub extensions: Option<Vec<String>>,
    pub any: Option<bool>,
}

/// The action of a rule.
pub struct Action {
    pub kind: ActionType,
    pub to: FsPath,
    pub use_layout: bool,
}

} // verus!
