//! Batch-level decisions of an install run.
//!
//! A run resolves and installs several packages strictly in input order. A
//! failure counts against its own package only and never aborts the batch;
//! a package already at the latest version is reported and skipped without
//! any download. The decision of what to do per package and the run-level
//! counters live here; performing the work is the caller's.

use crate::manifest::InstalledPackage;
use crate::strutil::str_eq;
use vstd::prelude::*;

verus! {

/// What an install run does with one resolved package.
#[derive(Debug, Clone, Copy, PartialEq, Eq, Structural)]
pub enum InstallDecision {
    /// Not installed yet: install it.
    Fresh,
    /// Installed at another version: reinstall at the latest.
    Upgrade,
    /// Already installed at the latest version: do nothing, download
    /// nothing.
    AlreadyCurrent,
}

/// Decide what to do with a package, from its installed record (if any) and
/// the latest published version.
pub fn plan_action(installed: Option<&InstalledPackage>, latest_version: &str) -> (r:
    InstallDecision)
    ensures
        installed is None ==> r == InstallDecision::Fresh,
        (installed matches Some(p) && p.version@ == latest_version@) ==> r
            == InstallDecision::AlreadyCurrent,
        (installed matches Some(p) && p.version@ != latest_version@) ==> r
            == InstallDecision::Upgrade,
{
    match installed {
        None => InstallDecision::Fresh,
        Some(p) => {
            if str_eq(p.version.as_str(), latest_version) {
                InstallDecision::AlreadyCurrent
            } else {
                InstallDecision::Upgrade
            }
        },
    }
}

/// How many of the outcomes succeeded.
pub open spec fn count_true(s: Seq<bool>) -> int
    decreases s.len(),
{
    if s.len() == 0 {
        0
    } else {
        count_true(s.drop_last()) + if s.last() {
            1int
        } else {
            0int
        }
    }
}

proof fn lemma_count_true_bounds(s: Seq<bool>)
    ensures
        0 <= count_true(s) <= s.len(),
    decreases s.len(),
{
    if s.len() > 0 {
        lemma_count_true_bounds(s.drop_last());
    }
}

/// Run-level counters: one success or one failure per package attempted.
#[derive(Debug, Clone, Copy, PartialEq, Eq, Structural)]
pub struct BatchSummary {
    pub succeeded: usize,
    pub failed: usize,
}

impl BatchSummary {
    /// Counters before any package was attempted.
    pub fn new() -> (r: Self)
        ensures
            r.succeeded == 0,
            r.failed == 0,
    {
        BatchSummary { succeeded: 0, failed: 0 }
    }

    /// Record one package's outcome.
    pub fn record(&mut self, ok: bool)
        requires
            old(self).succeeded + old(self).failed < usize::MAX,
        ensures
            ok ==> final(self).succeeded == old(self).succeeded + 1 && final(self).failed == old(
                self,
            ).failed,
            !ok ==> final(self).failed == old(self).failed + 1 && final(self).succeeded == old(
                self,
            ).succeeded,
    {
        if ok {
            self.succeeded = self.succeeded + 1;
        } else {
            self.failed = self.failed + 1;
        }
    }
}

/// Fold a batch's outcomes, in order, into the run-level counters: as many
/// successes as there were `true` outcomes, the rest failures.
pub fn summarize(outcomes: &Vec<bool>) -> (r: BatchSummary)
    ensures
        r.succeeded == count_true(outcomes@),
        r.failed == outcomes@.len() - count_true(outcomes@),
{
    let n: usize = outcomes.len();
    let mut summary = BatchSummary::new();
    let mut i: usize = 0;
    while i < n
        invariant
            n == outcomes@.len(),
            i <= n,
            summary.succeeded == count_true(outcomes@.take(i as int)),
            summary.failed == i - count_true(outcomes@.take(i as int)),
        decreases n - i,
    {
        proof {
            lemma_count_true_bounds(outcomes@.take(i as int));
            assert(outcomes@.take(i + 1).drop_last() =~= outcomes@.take(i as int));
            assert(outcomes@.take(i + 1).last() == outcomes@[i as int]);
        }
        summary.record(outcomes[i]);
        i += 1;
    }
    proof {
        assert(outcomes@.take(n as int) =~= outcomes@);
    }
    summary
}

} // verus!
