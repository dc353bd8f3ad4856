use vstd::prelude::*;

use crate::config::{Config, Rule};
use crate::validate::{
    decimal, i64_to_decimal, priority_seen, priority_seen_exec, usize_to_decimal,
};

verus! {

/// A validation problem located by field and section, with an optional
/// suggested fix.
pub struct ValidationError {
    pub message: String,
    pub field: String,
    pub section: String,
    pub suggested_fix: Option<String>,
}

/// The value of a [`ValidationError`]: message, field, section, fix.
pub struct FieldErrorView {
    pub message: Seq<char>,
    pub field: Seq<char>,
    pub section: Seq<char>,
    pub suggested_fix: Option<Seq<char>>,
}

impl View for ValidationError {
    type V = FieldErrorView;

    open spec fn view(&self) -> FieldErrorView {
        FieldErrorView {
            message: self.message@,
            field: self.field@,
            section: self.section@,
            suggested_fix: match self.suggested_fix {
                Some(f) => Some(f@),
                None => None,
            },
        }
    }
}

/// The text shown for an error: where it is and what is wrong, then the
/// fix on a line of its own when there is one.
pub open spec fn formatted(e: FieldErrorView) -> Seq<char> {
    "\u{274c} Field '"@ + e.field + "' in section '["@ + e.section + "]': "@ + e.message + match e.suggested_fix {
        Some(f) => "\n   \u{1f4a1} Fix: "@ + f,
        None => Seq::empty(),
    }
}

impl ValidationError {
    /// An error without a suggested fix.
    pub fn new(message: String, field: String, section: String) -> (r: ValidationError)
        ensures
            r@ == (FieldErrorView {
                message: message@,
                field: field@,
                section: section@,
                suggested_fix: None,
            }),
    {
        ValidationError { message, field, section, suggested_fix: None }
    }

    /// An error with a suggested fix.
    pub fn with_fix(message: String, field: String, section: String, suggested_fix: String) -> (r:
        ValidationError)
        ensures
            r@ == (FieldErrorView {
                message: message@,
                field: field@,
                section: section@,
                suggested_fix: Some(suggested_fix@),
            }),
    {
        ValidationError { message, field, section, suggested_fix: Some(suggested_fix) }
    }

    /// The text shown to the user.
    pub fn format(&self) -> (r: String)
        ensures
            r@ == formatted(self@),
    {
        let mut output = String::from_str("\u{274c} Field '");
        output.append(self.field.as_str());
        output.append("' in section '[");
        output.append(self.section.as_str());
        output.append("]': ");
        output.append(self.message.as_str());
        match &self.suggested_fix {
            Some(fix) => {
                output.append("\n   \u{1f4a1} Fix: ");
                output.append(fix.as_str());
            },
            None => {
                assert(output@ =~= output@ + Seq::<char>::empty());
            },
        }
        output
    }
}

} // verus!

verus! {

/// The section name of the rule at index `i`.
pub open spec fn rule_section(i: int) -> Seq<char> {
    "rules["@ + decimal(i) + "]"@
}

/// The error of the `[paths]` section: no root configured.
pub open spec fn roots_errors(c: Config) -> Seq<FieldErrorView> {
    if c.paths.roots@.len() == 0 {
        seq![
            FieldErrorView {
                message: "At least one root directory must be specified"@,
                field: "roots"@,
                section: "paths"@,
                suggested_fix: Some("Add at least one path to roots = [\"/path/to/directory\"]"@),
            },
        ]
    } else {
        Seq::empty()
    }
}

/// A rule error without a fix.
pub open spec fn plain(message: Seq<char>, field: Seq<char>, i: int) -> FieldErrorView {
    FieldErrorView { message, field, section: rule_section(i), suggested_fix: None }
}

/// The errors of the rule at `i`: a priority already used, match criteria
/// that are missing or select nothing, a missing action.
pub open spec fn field_rule_errors_at(rules: Seq<Rule>, i: int) -> Seq<FieldErrorView> {
    let r = rules[i];
    (if priority_seen(rules, i) {
        seq![plain("Duplicate priority: "@ + decimal(r.priority as int), "priority"@, i)]
    } else {
        Seq::empty()
    }) + match r.criteria {
        None => seq![plain("Rule is missing match criteria"@, "match"@, i)],
        Some(m) => {
            let has_extensions = m.extensions matches Some(es) && es@.len() > 0;
            if !has_extensions && m.any != Some(true) {
                seq![
                    FieldErrorView {
                        message: "Rule must have at least one match criteria"@,
                        field: "match"@,
                        section: rule_section(i),
                        suggested_fix: Some("Add extensions or set any = true"@),
                    },
                ]
            } else {
                Seq::empty()
            }
        },
    } + if r.action is None {
        seq![plain("Rule is missing action"@, "action"@, i)]
    } else {
        Seq::empty()
    }
}

/// The errors of the first `n` rules, in order.
pub open spec fn field_rule_errors(rules: Seq<Rule>, n: int) -> Seq<FieldErrorView>
    decreases n,
{
    if n <= 0 {
        Seq::empty()
    } else {
        field_rule_errors(rules, n - 1) + field_rule_errors_at(rules, n - 1)
    }
}

/// Every error of a configuration: the roots, then each rule in order.
pub open spec fn field_config_errors(c: Config) -> Seq<FieldErrorView> {
    roots_errors(c) + field_rule_errors(c.rules@, c.rules@.len() as int)
}

/// The values of a list of errors.
pub open spec fn field_errors_view(es: Seq<ValidationError>) -> Seq<FieldErrorView> {
    es.map_values(|e: ValidationError| e@)
}

fn push_field_error(errors: &mut Vec<ValidationError>, e: ValidationError)
    ensures
        field_errors_view(final(errors)@) == field_errors_view(old(errors)@).push(e@),
{
    errors.push(e);
    assert(field_errors_view(errors@) =~= field_errors_view(old(errors)@).push(e@));
}

/// The section name of the rule at index `i`.
fn rule_section_exec(i: usize) -> (r: String)
    ensures
        r@ == rule_section(i as int),
{
    let mut s = String::from_str("rules[");
    let n = usize_to_decimal(i);
    s.append(n.as_str());
    s.append("]");
    s
}

/// Appends the errors of the rule at `i`.
fn push_rule_errors(rules: &Vec<Rule>, i: usize, errors: &mut Vec<ValidationError>)
    requires
        i < rules@.len(),
    ensures
        field_errors_view(final(errors)@) == field_errors_view(old(errors)@)
            + field_rule_errors_at(rules@, i as int),
{
    let rule = &rules[i];
    if priority_seen_exec(rules, i) {
        let mut message = String::from_str("Duplicate priority: ");
        let shown = i64_to_decimal(rule.priority);
        message.append(shown.as_str());
        push_field_error(
            errors,
            ValidationError::new(message, String::from_str("priority"), rule_section_exec(i)),
        );
    }
    match &rule.criteria {
        None => {
            push_field_error(
                errors,
                ValidationError::new(
                    String::from_str("Rule is missing match criteria"),
                    String::from_str("match"),
                    rule_section_exec(i),
                ),
            );
        },
        Some(m) => {
            let has_extensions = match &m.extensions {
                Some(es) => es.len() > 0,
                None => false,
            };
            let has_any = match m.any {
                Some(true) => true,
                _ => false,
            };
            if !has_extensions && !has_any {
                push_field_error(
                    errors,
                    ValidationError::with_fix(
                        String::from_str("Rule must have at least one match criteria"),
                        String::from_str("match"),
                        rule_section_exec(i),
                        String::from_str("Add extensions or set any = true"),
                    ),
                );
            }
        },
    }
    if rule.action.is_none() {
        push_field_error(
            errors,
            ValidationError::new(
                String::from_str("Rule is missing action"),
                String::from_str("action"),
                rule_section_exec(i),
            ),
        );
    }
    assert(field_errors_view(errors@) =~= field_errors_view(old(errors)@) + field_rule_errors_at(
        rules@,
        i as int,
    ));
}

/// Checks a configuration, naming the field and section of each problem and
/// a fix where one is known; every problem is collected.
pub fn validate_config(config: &Config) -> (r: Result<(), Vec<ValidationError>>)
    ensures
        r is Ok <==> field_config_errors(*config).len() == 0,
        r matches Err(es) ==> field_errors_view(es@) == field_config_errors(*config),
{
    let mut errors: Vec<ValidationError> = Vec::new();
    assert(field_errors_view(errors@) =~= Seq::empty());
    if config.paths.roots.len() == 0 {
        push_field_error(
            &mut errors,
            ValidationError::with_fix(
                String::from_str("At least one root directory must be specified"),
                String::from_str("roots"),
                String::from_str("paths"),
                String::from_str("Add at least one path to roots = [\"/path/to/directory\"]"),
            ),
        );
    }
    assert(field_errors_view(errors@) =~= roots_errors(*config));
    let rules = &config.rules;
    let mut i: usize = 0;
    while i < rules.len()
        invariant
            i <= rules@.len(),
            rules == &config.rules,
            field_errors_view(errors@) == roots_errors(*config) + field_rule_errors(rules@, i as int),
        decreases rules.len() - i,
    {
        let ghost before = field_errors_view(errors@);
        push_rule_errors(rules, i, &mut errors);
        assert(field_errors_view(errors@) =~= before + field_rule_errors_at(rules@, i as int));
        i += 1;
        assert(field_errors_view(errors@) =~= roots_errors(*config) + field_rule_errors(
            rules@,
            i as int,
        ));
    }
    if errors.len() == 0 {
        Ok(())
    } else {
        Err(errors)
    }
}

} // verus!
