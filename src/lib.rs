//! Organizes files under configured roots by prioritized rules.
//!
//! Configured include and exclude roots are normalized and resolved into a
//! minimal effective policy ([`policy`]); a depth-first walk consults it for
//! every entry and isolates filesystem failures ([`walk`]); each file is
//! classified ([`classify`]) and assigned the rule that wins for it
//! ([`matcher`]); configurations are checked as a whole ([`validate`]).
use vstd::prelude::*;

pub mod classify;
pub mod cli;
pub mod config;
pub mod entry;
pub mod field_errors;
pub mod matcher;
pub mod path;
pub mod policy;
pub mod policy_fixpoint;
pub mod policy_laws;
pub mod validate;
pub mod walk;

verus! {

} // verus!
