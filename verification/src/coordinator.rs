//! Download orchestration: the checksum-gated skip decision, the
//! per-outcome aggregation step, and the failure-threshold abort policy.
//!
//! Per-record tasks run outside the library; they report one outcome each
//! over a channel. The single consumer feeds every outcome, in the order
//! received, to an [`Aggregator`], and stops the moment the aggregator
//! answers `Abort` or `Done`.
use vstd::prelude::*;

use crate::hash::MyHash;
use crate::hash::checksum_matches;

verus! {

/// The result one per-record task reports: success, or failure with a
/// human-readable reason. Produced exactly once per record.
#[derive(Debug)]
pub enum DownloadOutcome {
    Success,
    Failure(String),
}

/// What a finished (or aborted) run reports.
#[derive(Debug)]
pub struct RunSummary {
    pub success_count: u32,
    pub failure_count: u32,
    pub aborted: bool,
}

/// Number of failures among a sequence of outcomes.
pub open spec fn count_failures(s: Seq<DownloadOutcome>) -> nat
    decreases s.len(),
{
    if s.len() == 0 {
        0
    } else {
        count_failures(s.drop_last()) + if s.last() is Failure {
            1nat
        } else {
            0nat
        }
    }
}

/// Number of successes among a sequence of outcomes.
pub open spec fn count_successes(s: Seq<DownloadOutcome>) -> nat
    decreases s.len(),
{
    if s.len() == 0 {
        0
    } else {
        count_successes(s.drop_last()) + if s.last() is Success {
            1nat
        } else {
            0nat
        }
    }
}

/// Every outcome is either a success or a failure, so the two counts
/// always sum to the number of outcomes.
pub proof fn lemma_counts_sum(s: Seq<DownloadOutcome>)
    ensures
        count_successes(s) + count_failures(s) == s.len(),
    decreases s.len(),
{
    if s.len() > 0 {
        lemma_counts_sum(s.drop_last());
    }
}

/// Whether a record must be fetched over the network: always when no
/// local content exists, and otherwise exactly when the local content
/// does not match the record's checksum specification.
pub open spec fn spec_needs_download(checksum: MyHash, local: Option<Seq<u8>>) -> bool {
    match local {
        Option::Some(b) => !checksum_matches(checksum, b),
        Option::None => true,
    }
}

/// The checksum-gated skip decision of one per-record task: `local` is
/// the destination file's current content, or `None` when the file does
/// not exist. Only when this returns true does the caller issue the GET.
pub fn needs_download(checksum: &MyHash, local: Option<&Vec<u8>>) -> (r: bool)
    ensures
        local is None ==> r,
        local matches Some(b) ==> r == !checksum_matches(*checksum, b@),
{
    match local {
        Option::Some(bytes) => !checksum.validate(bytes),
        Option::None => true,
    }
}

/// Idempotent re-run: a destination whose content already matches the
/// record's checksum is never downloaded again.
pub proof fn lemma_matching_local_skips_download(checksum: MyHash, local: Seq<u8>)
    requires
        checksum_matches(checksum, local),
    ensures
        !spec_needs_download(checksum, Option::Some(local)),
{
}

/// A record without a checksum is always (re)downloaded, whatever the
/// destination currently holds.
pub proof fn lemma_no_checksum_always_downloads(local: Option<Seq<u8>>)
    ensures
        spec_needs_download(MyHash::NoChecksum, local),
{
}

/// What the aggregation loop does after one more outcome: keep
/// consuming, finish normally, or abort the whole run.
#[derive(PartialEq, Eq, Structural, Clone, Copy, Debug)]
pub enum AggregateStatus {
    KeepGoing,
    Done,
    Abort,
}

/// The outcome consumer's state: counters over a fixed number of
/// expected outcomes, with a failure threshold.
#[derive(Debug)]
pub struct Aggregator {
    pub total: u32,
    pub max_fail: u32,
    pub success_count: u32,
    pub failure_count: u32,
}

impl Aggregator {
    /// The counters never outgrow the number of expected outcomes.
    pub open spec fn wf(&self) -> bool {
        self.success_count + self.failure_count <= self.total
    }

    pub fn new(total: u32, max_fail: u32) -> (a: Aggregator)
        ensures
            a.wf(),
            a.total == total,
            a.max_fail == max_fail,
            a.success_count == 0,
            a.failure_count == 0,
    {
        Aggregator { total, max_fail, success_count: 0, failure_count: 0 }
    }

    /// Consumes one outcome. Aborts the moment the failure count
    /// strictly exceeds the threshold — even with outcomes outstanding —
    /// and otherwise finishes once every expected outcome has arrived.
    pub fn step(&mut self, outcome: &DownloadOutcome) -> (st: AggregateStatus)
        requires
            old(self).wf(),
            old(self).success_count + old(self).failure_count < old(self).total,
            old(self).failure_count <= old(self).max_fail,
        ensures
            final(self).wf(),
            final(self).total == old(self).total,
            final(self).max_fail == old(self).max_fail,
            outcome is Success ==> final(self).success_count == old(self).success_count + 1
                && final(self).failure_count == old(self).failure_count,
            outcome is Failure ==> final(self).failure_count == old(self).failure_count + 1
                && final(self).success_count == old(self).success_count,
            st is Abort <==> final(self).failure_count > final(self).max_fail,
            st is Done <==> final(self).failure_count <= final(self).max_fail && final(self).success_count
                + final(self).failure_count == final(self).total,
            st is KeepGoing <==> final(self).failure_count <= final(self).max_fail && final(self).success_count
                + final(self).failure_count < final(self).total,
    {
        match outcome {
            DownloadOutcome::Success => {
                self.success_count = self.success_count + 1;
            },
            DownloadOutcome::Failure(_) => {
                self.failure_count = self.failure_count + 1;
            },
        }
        if self.failure_count > self.max_fail {
            AggregateStatus::Abort
        } else if self.success_count + self.failure_count == self.total {
            AggregateStatus::Done
        } else {
            AggregateStatus::KeepGoing
        }
    }
}

/// Drains a complete stream of outcomes, one per record, in the order
/// received. On normal completion the summary's counts are the stream's
/// counts, so `success_count + failure_count` is the record total. The
/// run aborts at the exact outcome whose failure strictly exceeds
/// `max_fail`, without consuming anything after it.
pub fn aggregate(outcomes: &Vec<DownloadOutcome>, max_fail: u32) -> (s: RunSummary)
    requires
        outcomes@.len() <= u32::MAX,
    ensures
        s.aborted <==> count_failures(outcomes@) > max_fail,
        !s.aborted ==> s.success_count == count_successes(outcomes@) && s.failure_count
            == count_failures(outcomes@) && s.success_count + s.failure_count == outcomes@.len(),
        s.aborted ==> s.failure_count == max_fail + 1 && exists|k: int|
            0 < k <= outcomes@.len() && count_failures(#[trigger] outcomes@.subrange(0, k))
                == max_fail + 1 && outcomes@[k - 1] is Failure && s.success_count
                == count_successes(outcomes@.subrange(0, k)),
{
    let total = outcomes.len() as u32;
    let mut agg = Aggregator::new(total, max_fail);
    let mut i: usize = 0;
    proof {
        assert(outcomes@.subrange(0, 0) =~= Seq::<DownloadOutcome>::empty());
    }
    while i < outcomes.len()
        invariant
            outcomes@.len() <= u32::MAX,
            total == outcomes@.len(),
            i <= outcomes@.len(),
            agg.wf(),
            agg.total == total,
            agg.max_fail == max_fail,
            agg.success_count == count_successes(outcomes@.subrange(0, i as int)),
            agg.failure_count == count_failures(outcomes@.subrange(0, i as int)),
            agg.failure_count <= max_fail,
            agg.success_count + agg.failure_count == i,
        decreases outcomes@.len() - i,
    {
        proof {
            lemma_counts_sum(outcomes@.subrange(0, i as int));
            assert(outcomes@.subrange(0, i + 1).drop_last() =~= outcomes@.subrange(0, i as int));
            assert(outcomes@.subrange(0, i + 1).last() == outcomes@[i as int]);
        }
        let st = agg.step(&outcomes[i]);
        i = i + 1;
        match st {
            AggregateStatus::Abort => {
                proof {
                    lemma_prefix_failures_bound(outcomes@, i as int);
                }
                return RunSummary {
                    success_count: agg.success_count,
                    failure_count: agg.failure_count,
                    aborted: true,
                };
            },
            AggregateStatus::Done => {
                proof {
                    assert(outcomes@.subrange(0, i as int) =~= outcomes@);
                }
                return RunSummary {
                    success_count: agg.success_count,
                    failure_count: agg.failure_count,
                    aborted: false,
                };
            },
            AggregateStatus::KeepGoing => {
            },
        }
    }
    proof {
        assert(outcomes@.subrange(0, i as int) =~= outcomes@);
    }
    RunSummary { success_count: agg.success_count, failure_count: agg.failure_count, aborted: false }
}

/// Failure counts are monotone over prefixes: the whole stream has at
/// least as many failures as any prefix of it.
pub proof fn lemma_prefix_failures_bound(s: Seq<DownloadOutcome>, k: int)
    requires
        0 <= k <= s.len(),
    ensures
        count_failures(s.subrange(0, k)) <= count_failures(s),
    decreases s.len() - k,
{
    if k < s.len() {
        assert(s.subrange(0, k + 1).drop_last() =~= s.subrange(0, k));
        lemma_prefix_failures_bound(s, k + 1);
        assert(s.subrange(0, s.len() as int) =~= s);
    } else {
        assert(s.subrange(0, k) =~= s);
    }
}

} // verus!
