use neatd::config::{
    Action, ActionType, Config, ConfigPaths, ExecutionMode, General, Ignore, Layout, Log, LogType,
    Naming, Report, ReportType, Rule, Safety,
};
use neatd::path::{get_file_path, FsPath, PathPart};
use neatd::policy::{
    covers, minimal_roots_exec, setup_policy_for_walk, should_descend, should_process,
    ConfigPolicy, EffectivePolicy,
};

fn fp(s: &str) -> FsPath {
    let mut parts = Vec::new();
    if s.starts_with('/') {
        parts.push(PathPart::Root);
    }
    for seg in s.split('/') {
        match seg {
            "" => {}
            "." => parts.push(PathPart::Cur),
            ".." => parts.push(PathPart::Parent),
            name => parts.push(PathPart::Normal(name.to_string())),
        }
    }
    FsPath { parts }
}

fn show(p: &FsPath) -> String {
    let mut out = String::new();
    for part in &p.parts {
        match part {
            PathPart::Root => out.push('/'),
            PathPart::Prefix(s) => out.push_str(s),
            PathPart::Cur => out.push_str("./"),
            PathPart::Parent => out.push_str("../"),
            PathPart::Normal(s) => {
                if !out.is_empty() && !out.ends_with('/') {
                    out.push('/');
                }
                out.push_str(s);
            }
        }
    }
    out
}

fn shown(ps: &[FsPath]) -> Vec<String> {
    ps.iter().map(show).collect()
}

fn paths(ss: &[&str]) -> Vec<FsPath> {
    ss.iter().map(|s| fp(s)).collect()
}

fn resolve(inc: &[&str], exc: &[&str]) -> EffectivePolicy {
    let mut policy = EffectivePolicy { effective_includes: Vec::new(), effective_excludes: Vec::new() };
    policy.set_effective_policy(paths(inc), paths(exc));
    policy
}

fn rule(name: &str, priority: i64, to: &str, enabled: bool) -> Rule {
    Rule {
        name: name.to_string(),
        enabled,
        priority,
        criteria: None,
        action: Some(Action { kind: ActionType::Move, to: fp(to), use_layout: false }),
    }
}

fn config(roots: &[&str], quarantine: &str, state: &str, rules: Vec<Rule>) -> Config {
    Config {
        version: 1,
        created_by: "tester".to_string(),
        created_at: "today".to_string(),
        general: General { mode: ExecutionMode::dry_run, default_action: ActionType::Copy, recursive: true },
        paths: ConfigPaths { roots: paths(roots), state_dir: fp(state), quarantine: fp(quarantine) },
        ignore: Ignore { globs: Vec::new(), ignore_hidden: false, extensions: Vec::new() },
        naming: Naming { normalize_names: false },
        layout: Layout { date_source: "modified".to_string(), date_format: "%Y".to_string() },
        log: Log { level: LogType::Info },
        report: Report { format: ReportType::Text },
        safety: Safety { require_within_roots: true, allow_delete: false },
        rules,
    }
}

#[test]
fn example_a_effective_roots() {
    let policy = resolve(&["/data", "/data/tmp", "/backup"], &["/data/tmp/cache", "/other/x"]);
    assert_eq!(shown(&policy.effective_includes), vec!["/data", "/backup"]);
    assert_eq!(shown(&policy.effective_excludes), vec!["/data/tmp/cache"]);
}

#[test]
fn example_b_shallower_root_subsumes() {
    let policy = resolve(&["/a/b", "/a"], &[]);
    assert_eq!(shown(&policy.effective_includes), vec!["/a"]);
    assert!(policy.effective_excludes.is_empty());
}

#[test]
fn resolving_twice_gives_identical_sets() {
    let inc = ["/x/y", "/z", "/x", "/z/w", "/q"];
    let exc = ["/x/y/k", "/x/y", "/nowhere", "/z/w/v"];
    let first = resolve(&inc, &exc);
    let second = resolve(&inc, &exc);
    assert_eq!(shown(&first.effective_includes), shown(&second.effective_includes));
    assert_eq!(shown(&first.effective_excludes), shown(&second.effective_excludes));
    assert_eq!(shown(&first.effective_includes), vec!["/z", "/x", "/q"]);
    assert_eq!(shown(&first.effective_excludes), vec!["/x/y", "/z/w/v"]);
}

#[test]
fn effective_roots_are_unrelated_and_excludes_within_includes() {
    let policy = resolve(
        &["/m/n/o", "/m/n", "/p", "/p/q", "/m/n"],
        &["/p/q/r", "/p/q", "/m/n/o/s", "/elsewhere", "/p/q/r/t"],
    );
    for (i, a) in policy.effective_includes.iter().enumerate() {
        for (j, b) in policy.effective_includes.iter().enumerate() {
            if i != j {
                assert!(!a.is_ancestor_or_self_of(b));
            }
        }
    }
    for (i, a) in policy.effective_excludes.iter().enumerate() {
        for (j, b) in policy.effective_excludes.iter().enumerate() {
            if i != j {
                assert!(!a.is_ancestor_or_self_of(b));
            }
        }
        assert!(covers(&policy.effective_includes, a));
    }
    assert_eq!(shown(&policy.effective_includes), vec!["/p", "/m/n"]);
    assert_eq!(shown(&policy.effective_excludes), vec!["/p/q", "/m/n/o/s"]);
}

#[test]
fn duplicate_roots_kept_once() {
    let kept = minimal_roots_exec(&paths(&["/r", "/s", "/r"]));
    assert_eq!(shown(&kept), vec!["/r", "/s"]);
}

#[test]
fn empty_lists_resolve_to_empty_policy() {
    let policy = resolve(&[], &["/a"]);
    assert!(policy.effective_includes.is_empty());
    assert!(policy.effective_excludes.is_empty());
}

#[test]
fn membership_follows_exclude_roots() {
    let policy = resolve(&["/data"], &["/data/tmp"]);
    assert!(should_process(&policy, &fp("/data/photo.jpg")));
    assert!(should_descend(&policy, &fp("/data/music")));
    assert!(!should_process(&policy, &fp("/data/tmp")));
    assert!(!should_descend(&policy, &fp("/data/tmp")));
    assert!(!should_process(&policy, &fp("/data/tmp/deep/file.txt")));
    assert!(!should_descend(&policy, &fp("/data/tmp/deep")));
    assert!(should_process(&policy, &fp("/data/tmpfile")));
}

#[test]
fn normalization_strips_dots_and_resolves_relative() {
    let normal = ConfigPolicy::lexical_normalize(&fp("/a/./b/../c/./d/.."));
    assert_eq!(show(&normal), "/a/c");
    let too_high = ConfigPolicy::lexical_normalize(&fp("/../x"));
    assert_eq!(show(&too_high), "/x");
    let all = ConfigPolicy::normalize_paths(&paths(&["docs/../media", "/abs/./p"]), &fp("/home/u"));
    assert_eq!(shown(&all), vec!["/home/u/media", "/abs/p"]);
}

#[test]
fn raw_roots_come_from_config() {
    let rules = vec![
        rule("imgs", 1, "/data/sorted/imgs", true),
        rule("old", 2, "archive", false),
        Rule { name: "noop".to_string(), enabled: true, priority: 3, criteria: None, action: None },
    ];
    let c = config(&["/data", "music/./"], "/data/.quarantine", "/var/state", rules);
    let raw = ConfigPolicy::new(&c, &fp("/home/u"));
    assert_eq!(shown(&raw.include_roots), vec!["/data", "/home/u/music"]);
    assert_eq!(
        shown(&raw.exclude_roots),
        vec!["/data/.quarantine", "/var/state", "/data/sorted/imgs", "/home/u/archive"]
    );
}

#[test]
fn policy_setup_from_config() {
    let rules = vec![rule("imgs", 1, "/data/sorted", true), rule("off", 2, "/home/u/music/out", false)];
    let c = config(&["/data", "music", "/data/inner"], "/data/.q", "/elsewhere/state", rules);
    let policy = setup_policy_for_walk(&c, &fp("/home/u"));
    assert_eq!(shown(&policy.effective_includes), vec!["/data", "/home/u/music"]);
    assert_eq!(shown(&policy.effective_excludes), vec!["/data/.q", "/data/sorted", "/home/u/music/out"]);
}

#[test]
fn file_path_inside_directory() {
    let p = get_file_path(fp("/home/u/.neatd"), "config.toml");
    assert_eq!(show(&p), "/home/u/.neatd/config.toml");
}

#[test]
fn reresolving_effective_policy_is_stable() {
    let first = resolve(&["/k/l", "/j", "/k", "/j/i/h"], &["/k/l/m", "/k/l", "/j/i", "/out"]);
    let mut again = EffectivePolicy { effective_includes: Vec::new(), effective_excludes: Vec::new() };
    again.set_effective_policy(
        first.effective_includes.iter().map(|p| p.copy()).collect(),
        first.effective_excludes.iter().map(|p| p.copy()).collect(),
    );
    assert_eq!(shown(&again.effective_includes), shown(&first.effective_includes));
    assert_eq!(shown(&again.effective_excludes), shown(&first.effective_excludes));
    assert_eq!(shown(&first.effective_includes), vec!["/j", "/k"]);
    assert_eq!(shown(&first.effective_excludes), vec!["/k/l", "/j/i"]);
}
