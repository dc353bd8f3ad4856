use vstd::prelude::*;

use crate::config::{Config, Rule};

verus! {

/// One problem found in a configuration.
pub enum ValidationError {
    MissingField { field: String, section: String },
    InvalidType { field: String, section: String, expected: String, got: String },
    InvalidEnumValue { field: String, section: String, expected: Vec<String>, got: String },
    InvalidPath { path: String, reason: String },
    InvalidGlob { pattern: String, reason: String },
    RuleError { rule_name: String, reason: String },
}

/// The value of a [`ValidationError`].
pub enum ValidationErrorView {
    MissingField { field: Seq<char>, section: Seq<char> },
    InvalidType { field: Seq<char>, section: Seq<char>, expected: Seq<char>, got: Seq<char> },
    InvalidEnumValue {
        field: Seq<char>,
        section: Seq<char>,
        expected: Seq<Seq<char>>,
        got: Seq<char>,
    },
    InvalidPath { path: Seq<char>, reason: Seq<char> },
    InvalidGlob { pattern: Seq<char>, reason: Seq<char> },
    RuleError { rule_name: Seq<char>, reason: Seq<char> },
}

/// The values of a list of strings.
pub open spec fn strings_view(s: Seq<String>) -> Seq<Seq<char>> {
    s.map_values(|x: String| x@)
}

impl View for ValidationError {
    type V = ValidationErrorView;

    open spec fn view(&self) -> ValidationErrorView {
        match self {
            ValidationError::MissingField { field, section } => ValidationErrorView::MissingField {
                field: field@,
                section: section@,
            },
            ValidationError::InvalidType { field, section, expected, got } =>
                ValidationErrorView::InvalidType {
                field: field@,
                section: section@,
                expected: expected@,
                got: got@,
            },
            ValidationError::InvalidEnumValue { field, section, expected, got } =>
                ValidationErrorView::InvalidEnumValue {
                field: field@,
                section: section@,
                expected: strings_view(expected@),
                got: got@,
            },
            ValidationError::InvalidPath { path, reason } => ValidationErrorView::InvalidPath {
                path: path@,
                reason: reason@,
            },
            ValidationError::InvalidGlob { pattern, reason } => ValidationErrorView::InvalidGlob {
                pattern: pattern@,
                reason: reason@,
            },
            ValidationError::RuleError { rule_name, reason } => ValidationErrorView::RuleError {
                rule_name: rule_name@,
                reason: reason@,
            },
        }
    }
}

/// The strings of `s` separated by commas.
pub open spec fn comma_joined(s: Seq<Seq<char>>) -> Seq<char>
    decreases s.len(),
{
    if s.len() == 0 {
        Seq::empty()
    } else if s.len() == 1 {
        s[0]
    } else {
        comma_joined(s.drop_last()) + ","@ + s.last()
    }
}

/// The message shown to the user for an error.
pub open spec fn message_of(e: ValidationErrorView) -> Seq<char> {
    match e {
        ValidationErrorView::MissingField { field, section } => "Missing required field '"@ + field
            + "' in section '["@ + section + "]'"@,
        ValidationErrorView::InvalidType { field, section, expected, got } =>
            "Invalid type at field '"@ + field + "' in section '["@ + section + "]'\nExpected: "@
            + expected + "\tGot: "@ + got,
        ValidationErrorView::InvalidEnumValue { field, section, expected, got } =>
            "Invalid value at field '"@ + field + "' in section '["@ + section
            + "]'\nExpected: "@ + comma_joined(expected) + "\tGot: "@ + got,
        ValidationErrorView::InvalidPath { path, reason } => "Invalid path '"@ + path
            + "'\nreason: "@ + reason,
        ValidationErrorView::InvalidGlob { pattern, reason } => "Invalid glob pattern '"@ + pattern
            + "'\nreason: "@ + reason,
        ValidationErrorView::RuleError { rule_name, reason } => "Invalid rule '"@ + rule_name
            + "'\nreason: "@ + reason,
    }
}

/// The strings of `s` separated by commas.
fn join_commas(s: &Vec<String>) -> (r: String)
    ensures
        r@ == comma_joined(strings_view(s@)),
{
    let mut out = String::new();
    let mut i: usize = 0;
    while i < s.len()
        invariant
            i <= s@.len(),
            out@ == comma_joined(strings_view(s@).subrange(0, i as int)),
        decreases s.len() - i,
    {
        let ghost sub = strings_view(s@).subrange(0, i + 1);
        assert(sub.drop_last() =~= strings_view(s@).subrange(0, i as int));
        assert(sub.last() == s@[i as int]@);
        if i > 0 {
            out.append(",");
        } else {
            assert(sub =~= seq![s@[0]@]);
        }
        out.append(s[i].as_str());
        i += 1;
    }
    assert(strings_view(s@).subrange(0, i as int) =~= strings_view(s@));
    out
}

impl ValidationError {
    /// The message shown to the user.
    pub fn to_string(&self) -> (r: String)
        ensures
            r@ == message_of(self@),
    {
        match self {
            ValidationError::MissingField { field, section } => {
                let mut s = String::from_str("Missing required field '");
                s.append(field.as_str());
                s.append("' in section '[");
                s.append(section.as_str());
                s.append("]'");
                s
            },
            ValidationError::InvalidType { field, section, expected, got } => {
                let mut s = String::from_str("Invalid type at field '");
                s.append(field.as_str());
                s.append("' in section '[");
                s.append(section.as_str());
                s.append("]'\nExpected: ");
                s.append(expected.as_str());
                s.append("\tGot: ");
                s.append(got.as_str());
                s
            },
            ValidationError::InvalidEnumValue { field, section, expected, got } => {
                let joined = join_commas(expected);
                let mut s = String::from_str("Invalid value at field '");
                s.append(field.as_str());
                s.append("' in section '[");
                s.append(section.as_str());
                s.append("]'\nExpected: ");
                s.append(joined.as_str());
                s.append("\tGot: ");
                s.append(got.as_str());
                s
            },
            ValidationError::InvalidPath { path, reason } => {
                let mut s = String::from_str("Invalid path '");
                s.append(path.as_str());
                s.append("'\nreason: ");
                s.append(reason.as_str());
                s
            },
            ValidationError::InvalidGlob { pattern, reason } => {
                let mut s = String::from_str("Invalid glob pattern '");
                s.append(pattern.as_str());
                s.append("'\nreason: ");
                s.append(reason.as_str());
                s
            },
            ValidationError::RuleError { rule_name, reason } => {
                let mut s = String::from_str("Invalid rule '");
                s.append(rule_name.as_str());
                s.append("'\nreason: ");
                s.append(reason.as_str());
                s
            },
        }
    }
}

} // verus!

verus! {

/// The character of a decimal digit.
pub open spec fn digit_char(d: nat) -> char {
    if d == 0 { '0' }
    else if d == 1 { '1' }
    else if d == 2 { '2' }
    else if d == 3 { '3' }
    else if d == 4 { '4' }
    else if d == 5 { '5' }
    else if d == 6 { '6' }
    else if d == 7 { '7' }
    else if d == 8 { '8' }
    else { '9' }
}

/// The decimal digits of `n`, without leading zeros.
pub open spec fn digits(n: nat) -> Seq<char>
    decreases n,
{
    if n < 10 {
        seq![digit_char(n)]
    } else {
        digits(n / 10).push(digit_char(n % 10))
    }
}

/// The decimal form of `n`, with a leading `-` when it is negative.
pub open spec fn decimal(n: int) -> Seq<char> {
    if n < 0 {
        seq!['-'] + digits((-n) as nat)
    } else {
        digits(n as nat)
    }
}

/// Relies on the `Display` of `i64` (through `to_string`): the decimal
/// digits, with a leading `-` for a negative number.
#[verifier::external_body]
pub(crate) fn i64_to_decimal(n: i64) -> (r: String)
    ensures
        r@ == decimal(n as int),
{
    n.to_string()
}

/// Relies on the `Display` of `usize` (through `to_string`): the decimal digits.
#[verifier::external_body]
pub(crate) fn usize_to_decimal(n: usize) -> (r: String)
    ensures
        r@ == decimal(n as int),
{
    n.to_string()
}

/// What the filesystem reported of a configured directory.
#[derive(Clone, Copy, PartialEq, Eq, Structural, Debug)]
pub enum PathStatus {
    Directory,
    NotDirectory,
    Missing,
}

/// A configured path as shown to the user, and what the filesystem reported of it.
pub struct PathCheck {
    pub shown: String,
    pub status: PathStatus,
}

/// The filesystem reports on the `[paths]` section: one per root, in
/// order, then the state and quarantine directories.
pub struct PathChecks {
    pub roots: Vec<PathCheck>,
    pub state_dir: PathCheck,
    pub quarantine: PathCheck,
}

/// The errors of one configured directory.
pub open spec fn path_errors(c: PathCheck) -> Seq<ValidationErrorView> {
    match c.status {
        PathStatus::Missing => seq![
            ValidationErrorView::InvalidPath { path: c.shown@, reason: "Path does not exist"@ },
        ],
        PathStatus::NotDirectory => seq![
            ValidationErrorView::InvalidPath {
                path: c.shown@,
                reason: "Path exists but is not a directory"@,
            },
        ],
        PathStatus::Directory => Seq::empty(),
    }
}

/// The errors of a list of configured directories, in order.
pub open spec fn all_path_errors(cs: Seq<PathCheck>) -> Seq<ValidationErrorView>
    decreases cs.len(),
{
    if cs.len() == 0 {
        Seq::empty()
    } else {
        all_path_errors(cs.drop_last()) + path_errors(cs.last())
    }
}

/// The errors of the `[paths]` section; roots are checked only when asked.
pub open spec fn paths_section_errors(checks: PathChecks, check_paths: bool) -> Seq<
    ValidationErrorView,
> {
    (if check_paths {
        all_path_errors(checks.roots@)
    } else {
        Seq::empty()
    }) + path_errors(checks.state_dir) + path_errors(checks.quarantine)
}

/// An earlier rule of `rules` has the priority of the rule at `n`.
pub open spec fn priority_seen(rules: Seq<Rule>, n: int) -> bool {
    exists|k: int| 0 <= k < n && rules[k].priority == rules[n].priority
}

/// The errors of the rule at `n`: a priority already used, criteria that
/// are missing or empty, a missing action.
pub open spec fn rule_errors_at(rules: Seq<Rule>, n: int) -> Seq<ValidationErrorView> {
    let r = rules[n];
    let name = r.name@;
    (if priority_seen(rules, n) {
        seq![
            ValidationErrorView::RuleError {
                rule_name: name,
                reason: "Duplicate priority: "@ + decimal(r.priority as int),
            },
        ]
    } else {
        Seq::empty()
    }) + match r.criteria {
        None => seq![
            ValidationErrorView::RuleError {
                rule_name: name,
                reason: "Rule is missing match criteria"@,
            },
        ],
        Some(m) => if m.extensions is None && m.any != Some(true) {
            seq![
                ValidationErrorView::RuleError {
                    rule_name: name,
                    reason: "Rule must have at least one match criteria (extensions or any)"@,
                },
            ]
        } else {
            Seq::empty()
        },
    } + if r.action is None {
        seq![ValidationErrorView::RuleError { rule_name: name, reason: "Rule is missing action"@ }]
    } else {
        Seq::empty()
    }
}

/// The errors of the first `n` rules, in order.
pub open spec fn rule_errors(rules: Seq<Rule>, n: int) -> Seq<ValidationErrorView>
    decreases n,
{
    if n <= 0 {
        Seq::empty()
    } else {
        rule_errors(rules, n - 1) + rule_errors_at(rules, n - 1)
    }
}

/// Every error of a configuration, paths first, then rules.
pub open spec fn config_errors(config: Config, checks: PathChecks, check_paths: bool) -> Seq<
    ValidationErrorView,
> {
    paths_section_errors(checks, check_paths) + rule_errors(config.rules@, config.rules@.len() as int)
}

/// The values of a list of errors.
pub open spec fn errors_view(es: Seq<ValidationError>) -> Seq<ValidationErrorView> {
    es.map_values(|e: ValidationError| e@)
}

fn push_error(errors: &mut Vec<ValidationError>, e: ValidationError)
    ensures
        errors_view(final(errors)@) == errors_view(old(errors)@).push(e@),
{
    errors.push(e);
    assert(errors_view(errors@) =~= errors_view(old(errors)@).push(e@));
}

/// Appends the error of one configured directory, if it has one.
pub fn handle_invalid_path_error(check: &PathCheck, errors: &mut Vec<ValidationError>)
    ensures
        errors_view(final(errors)@) == errors_view(old(errors)@) + path_errors(*check),
{
    match check.status {
        PathStatus::Missing => {
            push_error(
                errors,
                ValidationError::InvalidPath {
                    path: check.shown.clone(),
                    reason: String::from_str("Path does not exist"),
                },
            );
        },
        PathStatus::NotDirectory => {
            push_error(
                errors,
                ValidationError::InvalidPath {
                    path: check.shown.clone(),
                    reason: String::from_str("Path exists but is not a directory"),
                },
            );
        },
        PathStatus::Directory => {},
    }
    assert(errors_view(errors@) =~= errors_view(old(errors)@) + path_errors(*check));
}

} // verus!

verus! {

/// Appends the errors of the `[paths]` section.
fn validate_paths(checks: &PathChecks, errors: &mut Vec<ValidationError>, check_paths: bool)
    ensures
        errors_view(final(errors)@) == errors_view(old(errors)@) + paths_section_errors(
            *checks,
            check_paths,
        ),
{
    let ghost start = errors_view(errors@);
    if check_paths {
        let mut i: usize = 0;
        while i < checks.roots.len()
            invariant
                i <= checks.roots@.len(),
                errors_view(errors@) == start + all_path_errors(checks.roots@.subrange(0, i as int)),
            decreases checks.roots.len() - i,
        {
            let ghost sub = checks.roots@.subrange(0, i + 1);
            assert(sub.drop_last() =~= checks.roots@.subrange(0, i as int));
            handle_invalid_path_error(&checks.roots[i], errors);
            i += 1;
            assert(errors_view(errors@) =~= start + all_path_errors(
                checks.roots@.subrange(0, i as int),
            ));
        }
        assert(checks.roots@.subrange(0, i as int) =~= checks.roots@);
    }
    let ghost mid = errors_view(errors@);
    handle_invalid_path_error(&checks.state_dir, errors);
    handle_invalid_path_error(&checks.quarantine, errors);
    assert(errors_view(errors@) =~= errors_view(old(errors)@) + paths_section_errors(
        *checks,
        check_paths,
    ));
}

/// Appends a rule error for `rule`.
fn push_rule_error(errors: &mut Vec<ValidationError>, rule: &Rule, reason: String)
    ensures
        errors_view(final(errors)@) == errors_view(old(errors)@).push(
            ValidationErrorView::RuleError { rule_name: rule.name@, reason: reason@ },
        ),
{
    push_error(errors, ValidationError::RuleError { rule_name: rule.name.clone(), reason });
}

/// Whether a rule before position `n` has the priority of the rule at `n`.
pub(crate) fn priority_seen_exec(rules: &Vec<Rule>, n: usize) -> (r: bool)
    requires
        n < rules@.len(),
    ensures
        r == priority_seen(rules@, n as int),
{
    let mut k: usize = 0;
    while k < n
        invariant
            k <= n < rules@.len(),
            forall|j: int| 0 <= j < k ==> rules@[j].priority != rules@[n as int].priority,
        decreases n - k,
    {
        if rules[k].priority == rules[n].priority {
            return true;
        }
        k += 1;
    }
    false
}

/// Appends the errors of every rule, in order.
fn validate_rules(rules: &Vec<Rule>, errors: &mut Vec<ValidationError>)
    ensures
        errors_view(final(errors)@) == errors_view(old(errors)@) + rule_errors(
            rules@,
            rules@.len() as int,
        ),
{
    let ghost start = errors_view(errors@);
    let mut i: usize = 0;
    while i < rules.len()
        invariant
            i <= rules@.len(),
            errors_view(errors@) == start + rule_errors(rules@, i as int),
        decreases rules.len() - i,
    {
        let ghost before = errors_view(errors@);
        let rule = &rules[i];
        if priority_seen_exec(rules, i) {
            let mut reason = String::from_str("Duplicate priority: ");
            let shown = i64_to_decimal(rule.priority);
            reason.append(shown.as_str());
            push_rule_error(errors, rule, reason);
        }
        let ghost after_dup = errors_view(errors@);
        match &rule.criteria {
            None => {
                push_rule_error(errors, rule, String::from_str("Rule is missing match criteria"));
            },
            Some(m) => {
                let has_any = match m.any {
                    Some(true) => true,
                    _ => false,
                };
                if m.extensions.is_none() && !has_any {
                    push_rule_error(
                        errors,
                        rule,
                        String::from_str(
                            "Rule must have at least one match criteria (extensions or any)",
                        ),
                    );
                }
            },
        }
        if rule.action.is_none() {
            push_rule_error(errors, rule, String::from_str("Rule is missing action"));
        }
        assert(errors_view(errors@) =~= before + rule_errors_at(rules@, i as int));
        i += 1;
        assert(errors_view(errors@) =~= start + rule_errors(rules@, i as int));
    }
}

/// Checks a configuration, collecting every problem rather than stopping at
/// the first: `Ok` exactly when there is none.
pub fn validate_config(config: &Config, check_paths: bool, checks: &PathChecks) -> (r: Result<
    (),
    Vec<ValidationError>,
>)
    ensures
        r is Ok <==> config_errors(*config, *checks, check_paths).len() == 0,
        r matches Err(es) ==> errors_view(es@) == config_errors(*config, *checks, check_paths),
{
    let mut errors: Vec<ValidationError> = Vec::new();
    assert(errors_view(errors@) =~= Seq::empty());
    validate_paths(checks, &mut errors, check_paths);
    validate_rules(&config.rules, &mut errors);
    assert(errors_view(errors@) =~= config_errors(*config, *checks, check_paths));
    if errors.len() == 0 {
        Ok(())
    } else {
        Err(errors)
    }
}

} // verus!

verus! {

/// The errors of every earlier rule stay among the errors of a longer prefix.
proof fn lemma_rule_errors_keep(rules: Seq<Rule>, n: int, j: int, x: ValidationErrorView)
    requires
        0 <= j < n <= rules.len(),
        rule_errors_at(rules, j).contains(x),
    ensures
        rule_errors(rules, n).contains(x),
    decreases n,
{
    let prev = rule_errors(rules, n - 1);
    let here = rule_errors_at(rules, n - 1);
    assert(rule_errors(rules, n) == prev + here);
    if j == n - 1 {
        let k = choose|k: int| 0 <= k < here.len() && here[k] == x;
        assert((prev + here)[prev.len() + k] == x);
    } else {
        lemma_rule_errors_keep(rules, n - 1, j, x);
        let k = choose|k: int| 0 <= k < prev.len() && prev[k] == x;
        assert((prev + here)[k] == x);
    }
}

/// A priority shared by two rules is reported: the later rule gets an error
/// that names the duplicate priority, so validation fails.
pub proof fn law_duplicate_priority_reported(
    config: Config,
    checks: PathChecks,
    check_paths: bool,
    i: int,
    j: int,
)
    requires
        0 <= i < j < config.rules@.len(),
        config.rules@[i].priority == config.rules@[j].priority,
    ensures
        config_errors(config, checks, check_paths).contains(
            ValidationErrorView::RuleError {
                rule_name: config.rules@[j].name@,
                reason: "Duplicate priority: "@ + decimal(config.rules@[j].priority as int),
            },
        ),
        config_errors(config, checks, check_paths).len() > 0,
{
    let rules = config.rules@;
    let x = ValidationErrorView::RuleError {
        rule_name: rules[j].name@,
        reason: "Duplicate priority: "@ + decimal(rules[j].priority as int),
    };
    assert(priority_seen(rules, j));
    assert(rule_errors_at(rules, j)[0] == x);
    lemma_rule_errors_keep(rules, rules.len() as int, j, x);
    let p = paths_section_errors(checks, check_paths);
    let rs = rule_errors(rules, rules.len() as int);
    let k = choose|k: int| 0 <= k < rs.len() && rs[k] == x;
    assert((p + rs)[p.len() + k] == x);
}

} // verus!
