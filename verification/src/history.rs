//! The retained samples and the view of them that clients ask for: the most
//! recent ones, newest first.

use vstd::prelude::*;
use crate::ranking::{
    is_selection, lemma_selection_exists, picked, select_smallest, selection, selection_len,
};
use crate::shared::SystemMetric;

verus! {

/// Number of samples that the history endpoint returns at most.
pub const HISTORY_LIMIT: usize = 50;

/// A key that grows as the timestamp falls, so that the smallest key belongs
/// to the newest sample.
pub open spec fn age(timestamp: i64) -> u128 {
    (i64::MAX - timestamp) as u128
}

/// The [`age`] of every sample of a log.
pub open spec fn ages(log: Seq<SystemMetric>) -> Seq<u128> {
    Seq::new(log.len(), |at: int| age(log[at].timestamp))
}

/// The positions of the `limit` newest samples of a log, newest first.
/// Samples of one timestamp come in the order in which they were recorded.
pub open spec fn newest_positions(log: Seq<SystemMetric>, limit: nat) -> Seq<usize> {
    selection(ages(log), limit)
}

/// The `limit` newest samples of a log, newest first.
pub open spec fn newest_first(log: Seq<SystemMetric>, limit: nat) -> Seq<SystemMetric> {
    Seq::new(
        newest_positions(log, limit).len(),
        |rank: int| log[newest_positions(log, limit)[rank] as int],
    )
}

/// The samples that were persisted, in the order of their arrival.
pub struct MetricLog {
    entries: Vec<SystemMetric>,
}

impl View for MetricLog {
    type V = Seq<SystemMetric>;

    closed spec fn view(&self) -> Seq<SystemMetric> {
        self.entries@
    }
}

impl MetricLog {
    pub fn new() -> (log: MetricLog)
        ensures
            log@ == Seq::<SystemMetric>::empty(),
    {
        MetricLog { entries: Vec::new() }
    }

    /// Number of samples recorded.
    pub fn len(&self) -> (count: usize)
        ensures
            count == self@.len(),
    {
        self.entries.len()
    }

    /// Appends a sample. Nothing is compared: a sample recorded twice is held
    /// twice.
    pub fn record(&mut self, metric: SystemMetric)
        ensures
            final(self)@ == old(self)@.push(metric),
    {
        self.entries.push(metric);
    }

    /// The `limit` newest samples, newest first.
    pub fn history(&self, limit: usize) -> (recent: Vec<SystemMetric>)
        ensures
            recent@ == newest_first(self@, limit as nat),
    {
        let mut keys: Vec<u128> = Vec::new();
        let mut at: usize = 0;
        while at < self.entries.len()
            invariant
                at <= self.entries.len(),
                keys@ == ages(self.entries@).take(at as int),
            decreases self.entries.len() - at,
        {
            let key = (i64::MAX as i128 - self.entries[at].timestamp as i128) as u128;
            keys.push(key);
            at = at + 1;
        }
        proof {
            assert(keys@ =~= ages(self.entries@));
        }
        let picks = select_smallest(&keys, limit);
        let mut recent: Vec<SystemMetric> = Vec::new();
        let mut rank: usize = 0;
        while rank < picks.len()
            invariant
                rank <= picks.len(),
                is_selection(ages(self.entries@), limit as nat, picks@),
                recent@.len() == rank,
                forall|r: int|
                    0 <= r < rank ==> #[trigger] recent@[r] == self.entries@[picks@[r] as int],
            decreases picks.len() - rank,
        {
            recent.push(self.entries[picks[rank]].clone());
            rank = rank + 1;
        }
        recent
    }
}

/// The history is no longer than asked for, holds recorded samples only, each
/// position of the log at most once, runs from newer to older, and leaves no
/// sample out that is newer than one it holds.
pub proof fn lemma_history_is_newest_first(log: Seq<SystemMetric>, limit: nat)
    requires
        log.len() <= usize::MAX,
    ensures
        newest_first(log, limit).len() == selection_len(log.len(), limit),
        newest_first(log, limit).len() <= limit,
        forall|rank: int|
            0 <= rank < newest_first(log, limit).len() ==> {
                &&& #[trigger] newest_positions(log, limit)[rank] < log.len()
                &&& newest_first(log, limit)[rank] == log[newest_positions(log, limit)[rank] as int]
            },
        forall|earlier: int, later: int|
            0 <= earlier < later < newest_first(log, limit).len() ==> {
                &&& #[trigger] newest_positions(log, limit)[earlier] != #[trigger] newest_positions(
                    log,
                    limit,
                )[later]
                &&& newest_first(log, limit)[earlier].timestamp >= newest_first(
                    log,
                    limit,
                )[later].timestamp
            },
        forall|rank: int, at: int|
            0 <= rank < newest_first(log, limit).len() && 0 <= at < log.len() && !#[trigger] picked(
                newest_positions(log, limit),
                at,
            ) ==> log[at].timestamp <= (#[trigger] newest_first(log, limit)[rank]).timestamp,
{
    lemma_selection_exists(ages(log), limit);
}

/// A history that is not empty starts with a sample that no recorded sample
/// is newer than.
pub proof fn lemma_history_starts_with_the_newest(log: Seq<SystemMetric>, limit: nat)
    requires
        0 < log.len() <= usize::MAX,
        limit >= 1,
    ensures
        newest_first(log, limit).len() >= 1,
        forall|at: int|
            0 <= at < log.len() ==> (#[trigger] log[at]).timestamp <= newest_first(
                log,
                limit,
            )[0].timestamp,
{
    lemma_history_is_newest_first(log, limit);
    let picks = newest_positions(log, limit);
    assert forall|at: int| 0 <= at < log.len() implies (#[trigger] log[at]).timestamp
        <= newest_first(log, limit)[0].timestamp by {
        if picked(picks, at) {
            // it stands in the history, first or behind the first
            let rank = choose|rank: int| 0 <= rank < picks.len() && #[trigger] picks[rank] == at;
            assert(newest_first(log, limit)[rank] == log[at]);
        }
        // else it was left out, and is no newer than any sample that was kept
    }
}

} // verus!
