use vstd::prelude::*;

use crate::classify::{classify, kind_of};
use crate::config::Config;
use crate::entry::{EntryError, EntryOp, FileKind, FsEntry, Log, Outcome, Severity};
use crate::path::{FsPath, PartView};
use crate::policy::{
    covered_by, effective_excludes_of, effective_includes_of, normalized_all, paths_view,
    raw_excludes, setup_policy_for_walk, should_descend, should_process,
    EffectivePolicy,
};

verus! {

/// A filesystem call that failed.
pub struct Failure {
    pub message: Option<String>,
    pub severity: Severity,
    /// How many times the call was retried before giving up.
    pub retries: u32,
}

/// What the filesystem reported of one child of a listed directory. Both
/// flags are read without following symlinks.
pub struct ChildInfo {
    pub path: FsPath,
    pub is_dir: bool,
    pub is_symlink: bool,
    /// Set when the child's metadata could not be read.
    pub failure: Option<Failure>,
}

/// The result of listing one directory.
pub enum Listing {
    Listed(Vec<ChildInfo>),
    Failed(Failure),
}

/// One visited path and the outcome reported for it.
pub struct WalkRecord {
    pub entry: FsEntry,
    pub log: Log,
}

/// A depth-first walk in progress: the policy that gates it, the
/// directories still to be listed (the next one last), and what was visited.
pub struct Walker {
    pub policy: EffectivePolicy,
    pub pending: Vec<FsPath>,
    pub records: Vec<WalkRecord>,
}

/// What is done about a failure: a fatal one aborts, others are skipped or
/// counted as retried.
pub open spec fn failure_outcome(f: Failure) -> Outcome {
    if f.severity == Severity::Fatal {
        Outcome::Aborted
    } else if f.retries > 0 {
        Outcome::Retried(f.retries)
    } else {
        Outcome::Skipped
    }
}

/// A child is walked into when it was read, is a directory, and no exclude
/// root covers it.
pub open spec fn descends(ex: Seq<Seq<PartView>>, c: ChildInfo) -> bool {
    c.failure is None && c.is_dir && !covered_by(ex, c.path@)
}

/// The kind recorded for a child; one whose metadata failed counts as other.
pub open spec fn child_kind(c: ChildInfo) -> FileKind {
    if c.failure is Some {
        FileKind::Other
    } else {
        kind_of(c.is_dir, c.is_symlink, c.path@)
    }
}

/// The outcome reported for a child.
pub open spec fn child_log(ex: Seq<Seq<PartView>>, c: ChildInfo) -> Log {
    if c.failure is Some {
        Log::UnknownError
    } else if c.is_dir {
        if covered_by(ex, c.path@) {
            Log::CannotDescend
        } else {
            Log::Success
        }
    } else if covered_by(ex, c.path@) {
        Log::CannotProcess
    } else {
        Log::Success
    }
}

/// The paths of the children that are walked into, in listing order.
pub open spec fn descended(ex: Seq<Seq<PartView>>, cs: Seq<ChildInfo>) -> Seq<Seq<PartView>>
    decreases cs.len(),
{
    if cs.len() == 0 {
        Seq::empty()
    } else {
        let prev = descended(ex, cs.drop_last());
        if descends(ex, cs.last()) {
            prev.push(cs.last().path@)
        } else {
            prev
        }
    }
}

/// `e` records failure `f` of operation `op` at path `p`.
pub open spec fn records_failure(e: EntryError, p: Seq<PartView>, op: EntryOp, f: Failure) -> bool {
    e.path@ == p && e.operation == op && e.source == f.message && e.severity == f.severity
        && e.outcome == failure_outcome(f)
}

/// `rec` is the record of child `c` under exclude roots `ex`.
pub open spec fn child_record(ex: Seq<Seq<PartView>>, c: ChildInfo, rec: WalkRecord) -> bool {
    &&& rec.entry.path@ == c.path@
    &&& rec.entry.kind == child_kind(c)
    &&& rec.entry.metadata is None
    &&& rec.log == child_log(ex, c)
    &&& match c.failure {
        None => rec.entry.errors@.len() == 0,
        Some(f) => rec.entry.errors@.len() == 1 && records_failure(
            rec.entry.errors@[0],
            c.path@,
            EntryOp::Metadata,
            f,
        ),
    }
}

/// `rec` is the record of a directory at `dir` whose listing failed with `f`.
pub open spec fn listing_failure_record(dir: Seq<PartView>, f: Failure, rec: WalkRecord) -> bool {
    &&& rec.entry.path@ == dir
    &&& rec.entry.kind == FileKind::Directory
    &&& rec.entry.metadata is None
    &&& rec.log == Log::UnknownError
    &&& rec.entry.errors@.len() == 1
    &&& records_failure(rec.entry.errors@[0], dir, EntryOp::ReadDir, f)
}

fn copy_message(m: &Option<String>) -> (r: Option<String>)
    ensures
        r == *m,
{
    match m {
        Some(s) => Some(s.clone()),
        None => None,
    }
}

/// The entry error that records failure `f` of operation `op` at `path`.
fn failure_error(path: &FsPath, op: EntryOp, f: &Failure) -> (r: EntryError)
    ensures
        records_failure(r, path@, op, *f),
{
    let outcome = if f.severity == Severity::Fatal {
        Outcome::Aborted
    } else if f.retries > 0 {
        Outcome::Retried(f.retries)
    } else {
        Outcome::Skipped
    };
    EntryError {
        path: path.copy(),
        operation: op,
        source: copy_message(&f.message),
        severity: f.severity,
        outcome,
    }
}

impl Walker {
    /// A walk over every effective include root of `policy`, the first root
    /// to be listed first.
    pub fn new(policy: EffectivePolicy) -> (r: Walker)
        ensures
            r.policy == policy,
            paths_view(r.pending@) == policy.includes().reverse(),
            r.records@.len() == 0,
    {
        let mut pending: Vec<FsPath> = Vec::new();
        let n = policy.effective_includes.len();
        let mut i: usize = n;
        while i > 0
            invariant
                i <= n == policy.effective_includes.len(),
                paths_view(pending@) == policy.includes().subrange(i as int, n as int).reverse(),
            decreases i,
        {
            let ghost prev = pending@;
            pending.push(policy.effective_includes[i - 1].copy());
            i -= 1;
            assert(paths_view(pending@) =~= paths_view(prev).push(policy.includes()[i as int]));
            assert(policy.includes().subrange(i as int, n as int).reverse() =~= policy.includes().subrange(
                i + 1,
                n as int,
            ).reverse().push(policy.includes()[i as int]));
        }
        assert(policy.includes().subrange(0, n as int) =~= policy.includes());
        Walker { policy, pending, records: Vec::new() }
    }

    /// Whether directories remain to be listed.
    pub fn is_done(&self) -> (r: bool)
        ensures
            r == (self.pending@.len() == 0),
    {
        self.pending.len() == 0
    }

    /// Takes the next directory to list.
    pub fn next_dir(&mut self) -> (r: Option<FsPath>)
        ensures
            final(self).policy == old(self).policy,
            final(self).records == old(self).records,
            old(self).pending@.len() == 0 ==> r is None && final(self).pending@ == old(self).pending@,
            old(self).pending@.len() > 0 ==> r == Some(old(self).pending@.last())
                && final(self).pending@ == old(self).pending@.drop_last(),
    {
        self.pending.pop()
    }

    /// Records the listing of `dir`. Each child is classified and recorded;
    /// the directories among them that the policy does not exclude become
    /// pending. A failed listing is recorded on `dir` alone: nothing below it
    /// is walked, and every directory already pending stays pending.
    pub fn visit_listing(&mut self, dir: &FsPath, listing: Listing)
        ensures
            final(self).policy == old(self).policy,
            final(self).records@.subrange(0, old(self).records@.len() as int)
                == old(self).records@,
            match listing {
                Listing::Failed(f) => {
                    &&& final(self).pending@ == old(self).pending@
                    &&& final(self).records@.len() == old(self).records@.len() + 1
                    &&& listing_failure_record(
                        dir@,
                        f,
                        final(self).records@[old(self).records@.len() as int],
                    )
                },
                Listing::Listed(children) => {
                    &&& paths_view(final(self).pending@) == paths_view(old(self).pending@)
                        + descended(old(self).policy.excludes(), children@)
                    &&& final(self).records@.len() == old(self).records@.len() + children@.len()
                    &&& forall|i: int|
                        0 <= i < children@.len() ==> child_record(
                            old(self).policy.excludes(),
                            #[trigger] children@[i],
                            final(self).records@[old(self).records@.len() + i],
                        )
                },
            },
    {
        let ghost old_records = self.records@;
        match listing {
            Listing::Failed(f) => {
                let mut errors: Vec<EntryError> = Vec::new();
                errors.push(failure_error(dir, EntryOp::ReadDir, &f));
                let entry = FsEntry {
                    path: dir.copy(),
                    kind: FileKind::Directory,
                    metadata: None,
                    errors,
                };
                self.records.push(WalkRecord { entry, log: Log::UnknownError });
                assert(self.records@.subrange(0, old_records.len() as int) =~= old_records);
            },
            Listing::Listed(children) => {
                let ghost ex = self.policy.excludes();
                let ghost old_pending = paths_view(self.pending@);
                let mut i: usize = 0;
                while i < children.len()
                    invariant
                        i <= children.len(),
                        self.policy == old(self).policy,
                        ex == self.policy.excludes(),
                        paths_view(self.pending@) == old_pending + descended(
                            ex,
                            children@.subrange(0, i as int),
                        ),
                        self.records@.len() == old_records.len() + i,
                        self.records@.subrange(0, old_records.len() as int) == old_records,
                        forall|k: int|
                            0 <= k < i ==> child_record(
                                ex,
                                #[trigger] children@[k],
                                self.records@[old_records.len() + k],
                            ),
                    decreases children.len() - i,
                {
                    let c = &children[i];
                    let ghost sub = children@.subrange(0, i + 1);
                    assert(sub.drop_last() =~= children@.subrange(0, i as int));
                    assert(sub.last() == *c);
                    let ghost prev_pending = self.pending@;
                    let ghost prev_records = self.records@;
                    let rec = match &c.failure {
                        Some(f) => {
                            let mut errors: Vec<EntryError> = Vec::new();
                            errors.push(failure_error(&c.path, EntryOp::Metadata, f));
                            WalkRecord {
                                entry: FsEntry {
                                    path: c.path.copy(),
                                    kind: FileKind::Other,
                                    metadata: None,
                                    errors,
                                },
                                log: Log::UnknownError,
                            }
                        },
                        None => {
                            let kind = classify(c.is_dir, c.is_symlink, &c.path);
                            let log = if c.is_dir {
                                if should_descend(&self.policy, &c.path) {
                                    self.pending.push(c.path.copy());
                                    assert(paths_view(self.pending@) =~= paths_view(
                                        prev_pending,
                                    ).push(c.path@));
                                    Log::Success
                                } else {
                                    Log::CannotDescend
                                }
                            } else if should_process(&self.policy, &c.path) {
                                Log::Success
                            } else {
                                Log::CannotProcess
                            };
                            WalkRecord {
                                entry: FsEntry {
                                    path: c.path.copy(),
                                    kind,
                                    metadata: None,
                                    errors: Vec::new(),
                                },
                                log,
                            }
                        },
                    };
                    self.records.push(rec);
                    assert(self.records@.subrange(0, old_records.len() as int) =~= old_records) by {
                        assert(self.records@.subrange(0, old_records.len() as int) =~= prev_records.subrange(
                            0,
                            old_records.len() as int,
                        ));
                    }
                    assert forall|k: int| 0 <= k < i + 1 implies child_record(
                        ex,
                        #[trigger] children@[k],
                        self.records@[old_records.len() + k],
                    ) by {
                        if k < i {
                            assert(self.records@[old_records.len() + k] == prev_records[old_records.len() + k]);
                        }
                    }
                    i += 1;
                }
                assert(children@.subrange(0, i as int) =~= children@);
            },
        }
    }
}

/// Resolves the policy of `config` and starts a walk over its effective include roots.
pub fn walk_policy_setup(config: &Config, base_dir: &FsPath) -> (r: Walker)
    ensures
        r.policy.includes() == effective_includes_of(
            normalized_all(base_dir@, paths_view(config.paths.roots@)),
        ),
        r.policy.excludes() == effective_excludes_of(
            normalized_all(base_dir@, paths_view(config.paths.roots@)),
            normalized_all(base_dir@, raw_excludes(*config)),
        ),
        paths_view(r.pending@) == r.policy.includes().reverse(),
        r.records@.len() == 0,
{
    let policy = setup_policy_for_walk(config, base_dir);
    Walker::new(policy)
}

} // verus!
