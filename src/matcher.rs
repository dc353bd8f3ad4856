use vstd::prelude::*;

use crate::classify::{path_extension, path_extension_exec};
use crate::config::{Config, Rule};
use crate::entry::FsEntry;

verus! {

/// The ASCII lowercase of a character; other characters stay as they are.
pub open spec fn lower_char(c: char) -> char {
    if 'A' <= c && c <= 'Z' {
        ((c as u32) + 32) as char
    } else {
        c
    }
}

/// The ASCII lowercase of a string, character by character.
pub open spec fn ascii_lowered(s: Seq<char>) -> Seq<char> {
    s.map_values(|c: char| lower_char(c))
}

/// Relies on str::to_ascii_lowercase: ASCII letters become lowercase and
/// every other character stays as it is.
#[verifier::external_body]
fn ascii_lowercase(s: &str) -> (r: String)
    ensures
        r@ == ascii_lowered(s@),
{
    s.to_ascii_lowercase()
}

/// Some extension of `exts` equals `ext` once both are case-folded.
pub open spec fn has_extension_in(exts: Seq<String>, ext: Seq<char>) -> bool {
    exists|j: int| 0 <= j < exts.len() && ascii_lowered(exts[j]@) == ascii_lowered(ext)
}

/// A rule matches a file with extension `ext` when it is enabled and has
/// criteria that either match anything or list the extension.
pub open spec fn rule_matches(r: Rule, ext: Option<Seq<char>>) -> bool {
    r.enabled && match r.criteria {
        None => false,
        Some(m) => m.any == Some(true) || match (m.extensions, ext) {
            (Some(es), Some(e)) => has_extension_in(es@, e),
            _ => false,
        },
    }
}

/// The rule at `w` matches, and every other matching rule has a greater
/// priority number, or an equal one and a later place.
pub open spec fn is_winner(rules: Seq<Rule>, ext: Option<Seq<char>>, w: int) -> bool {
    &&& 0 <= w < rules.len()
    &&& rule_matches(rules[w], ext)
    &&& forall|i: int|
        0 <= i < rules.len() && rule_matches(#[trigger] rules[i], ext) ==> rules[w].priority
            < rules[i].priority || (rules[w].priority == rules[i].priority && w <= i)
}

/// The ASCII lowercase of each string, in order.
pub fn get_hash_set(vec_of_strings: &Vec<String>) -> (r: Vec<String>)
    ensures
        r@.len() == vec_of_strings@.len(),
        forall|i: int| 0 <= i < r@.len() ==> #[trigger] r@[i]@ == ascii_lowered(vec_of_strings@[i]@),
{
    let mut out: Vec<String> = Vec::new();
    let mut i: usize = 0;
    while i < vec_of_strings.len()
        invariant
            i <= vec_of_strings@.len(),
            out@.len() == i,
            forall|k: int| 0 <= k < i ==> #[trigger] out@[k]@ == ascii_lowered(vec_of_strings@[k]@),
        decreases vec_of_strings.len() - i,
    {
        out.push(ascii_lowercase(vec_of_strings[i].as_str()));
        i += 1;
    }
    out
}

/// The value of an optional string.
pub open spec fn opt_view(o: Option<String>) -> Option<Seq<char>> {
    match o {
        Some(s) => Some(s@),
        None => None,
    }
}

/// Whether some of `exts` equals `ext` once both are case-folded.
pub fn contains_folded(exts: &Vec<String>, ext: &String) -> (r: bool)
    ensures
        r == has_extension_in(exts@, ext@),
{
    let lowered = get_hash_set(exts);
    let target = ascii_lowercase(ext.as_str());
    let mut j: usize = 0;
    while j < lowered.len()
        invariant
            j <= lowered@.len() == exts@.len(),
            target@ == ascii_lowered(ext@),
            forall|k: int| 0 <= k < lowered@.len() ==> #[trigger] lowered@[k]@ == ascii_lowered(exts@[k]@),
            forall|k: int| 0 <= k < j ==> ascii_lowered(exts@[k]@) != ascii_lowered(ext@),
        decreases lowered.len() - j,
    {
        if lowered[j].eq(&target) {
            assert(ascii_lowered(exts@[j as int]@) == ascii_lowered(ext@));
            return true;
        }
        j += 1;
    }
    false
}

/// Whether `rule` matches a file with extension `ext`.
pub fn rule_matches_ext(rule: &Rule, ext: &Option<String>) -> (r: bool)
    ensures
        r == rule_matches(*rule, opt_view(*ext)),
{
    if !rule.enabled {
        return false;
    }
    match &rule.criteria {
        None => false,
        Some(m) => {
            if let Some(true) = m.any {
                return true;
            }
            match (&m.extensions, ext) {
                (Some(es), Some(e)) => contains_folded(es, e),
                _ => false,
            }
        },
    }
}

/// The index of the rule that decides the disposition of `entry`: among the
/// rules matching its extension, the one with the lowest priority number
/// (the first of equals); none when no rule matches.
pub fn apply_rules_to_file(config: &Config, entry: &FsEntry) -> (r: Option<usize>)
    ensures
        r matches Some(w) ==> is_winner(config.rules@, path_extension(entry.path@), w as int),
        r is None <==> forall|i: int|
            0 <= i < config.rules@.len() ==> !rule_matches(
                #[trigger] config.rules@[i],
                path_extension(entry.path@),
            ),
{
    let ext = path_extension_exec(&entry.path);
    let ghost e = path_extension(entry.path@);
    assert(opt_view(ext) == e);
    let rules = &config.rules;
    let mut best: Option<usize> = None;
    let mut i: usize = 0;
    while i < rules.len()
        invariant
            i <= rules@.len(),
            opt_view(ext) == e,
            best matches Some(w) ==> w < i && is_winner(rules@.subrange(0, i as int), e, w as int),
            best is None ==> forall|k: int| 0 <= k < i ==> !rule_matches(#[trigger] rules@[k], e),
        decreases rules.len() - i,
    {
        if rule_matches_ext(&rules[i], &ext) {
            match best {
                None => {
                    best = Some(i);
                },
                Some(w) => {
                    if rules[i].priority < rules[w].priority {
                        best = Some(i);
                    }
                },
            }
        }
        i += 1;
        assert forall|k: int| 0 <= k < i implies #[trigger] rules@.subrange(0, i as int)[k]
            == rules@[k] by {}
        proof {
            match best {
                Some(w) => {
                    let s = rules@.subrange(0, i as int);
                    let s0 = rules@.subrange(0, i - 1);
                    assert forall|k: int| 0 <= k < i - 1 implies #[trigger] s0[k] == rules@[k] by {}
                    assert(s[w as int] == rules@[w as int]);
                    assert forall|k: int|
                        0 <= k < s.len() && rule_matches(#[trigger] s[k], e) implies s[w as int].priority
                        < s[k].priority || (s[w as int].priority == s[k].priority && w <= k) by {
                        assert(s[k] == rules@[k]);
                        if k < i - 1 {
                            assert(s0[k] == rules@[k]);
                        }
                    }
                },
                None => {},
            }
        }
    }
    assert(rules@.subrange(0, i as int) =~= rules@);
    best
}

} // verus!
