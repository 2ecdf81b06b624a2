//! The share-validation pipeline, run on the state of a pool.
//!
//! One share goes through [`Pool::process_share`]; the submitted shares of
//! one worker through [`Pool::process_queue`]; those of all workers through
//! [`Pool::process_shares`]. What each does to the pool is given as a
//! function of the pool before and of what the proof-of-work check found.

use crate::duplicates::observed;
use crate::grin::unscaled_difficulty;
use crate::header::{check_solution, header_readable, solution_check};
use crate::job::{recovered_job_id, upstream_job_id, JobView};
use crate::pool::{Pool, PoolView, Submission, SubmissionView};
use crate::registry::{lemma_same_keys_unique, EntryView};
use crate::share::{
    acceptable_size, grade_solution, grading, screen_share, screening, share_verdict,
    ProofCheck, Share, ShareOutcome, ShareView,
};
use crate::worker::{edges, lemma_record_keeps_room, shares_view, WorkerView};
use vstd::prelude::*;

verus! {

/// How one share ended, and what the proof-of-work check found of it. For a
/// share that was rejected before the check, `check` is [`ProofCheck::Failed`].
#[derive(Clone, Copy, Debug, PartialEq, Eq, Structural)]
pub struct ShareReport {
    pub outcome: ShareOutcome,
    pub check: ProofCheck,
}

/// What the reports of one worker's shares say the checks found.
pub open spec fn checks_in(reports: Seq<ShareReport>) -> Seq<ProofCheck> {
    reports.map_values(|r: ShareReport| r.check)
}

/// What the reports of each worker's shares say the checks found.
pub open spec fn checks_of(reports: Seq<Vec<ShareReport>>) -> Seq<Seq<ProofCheck>> {
    reports.map_values(|r: Vec<ShareReport>| checks_in(r@))
}

impl PoolView {
    /// The outcome of the pipeline for a share of the worker at `i`, given
    /// what the proof-of-work check finds.
    pub open spec fn outcome_of(self, i: int, share: ShareView, check: ProofCheck) -> ShareOutcome {
        share_verdict(
            self.duplicates.contains_key(share.pow),
            share.edge_bits,
            share.height,
            self.job.height,
            self.job_versions.contains_key(share.job_id),
            check,
            self.workers[i].worker.status.difficulty,
        )
    }

    /// Whether the proof-of-work check is reached for a share, and can
    /// rebuild the header from the pre-header its job was issued with.
    pub open spec fn checkable(self, share: ShareView) -> bool {
        &&& screening(
            self.duplicates.contains_key(share.pow),
            share.edge_bits,
            share.height,
            self.job.height,
            self.job_versions.contains_key(share.job_id),
        ) is None
        &&& header_readable(
            self.job_versions[share.job_id],
            share.edge_bits as u8,
            share.nonce,
            share.pow,
        )
    }

    /// What holds of the proof-of-work check of a share: it fails where it
    /// is not reached or no header can be rebuilt; where it is reached it is
    /// what the check finds against the pre-header the share's job was issued
    /// with; and where it succeeds it carries the difficulty of the proof,
    /// which is at least one.
    pub open spec fn check_possible(self, share: ShareView, check: ProofCheck) -> bool {
        &&& !self.checkable(share) ==> check == ProofCheck::Failed
        &&& self.checkable(share) ==> check == solution_check(
            self.job_versions[share.job_id],
            share.edge_bits as u8,
            share.nonce,
            share.pow,
        )
        &&& check matches ProofCheck::Verified { difficulty } ==> difficulty
            == unscaled_difficulty(share.edge_bits as u8, share.pow) && difficulty >= 1
    }

    /// A share as it is forwarded upstream: under the upstream's own job
    /// identifier.
    pub open spec fn forwarded(share: ShareView) -> ShareView {
        ShareView {
            job_id: recovered_job_id(share.job_id as int, share.height as int) as u64,
            ..share
        }
    }

    /// The pool after one share of the worker at `i` went through the
    /// pipeline.
    ///
    /// The proof vector is noted as seen. The worker's record takes the
    /// outcome. An accepted share is queued to be forwarded, credited to the
    /// worker's identifier.
    pub open spec fn after_share(self, i: int, share: ShareView, check: ProofCheck) -> PoolView {
        let outcome = self.outcome_of(i, share, check);
        let worker = self.workers[i].worker;
        PoolView {
            duplicates: observed(self.duplicates, share.pow, share.worker_id),
            workers: self.workers.update(
                i,
                EntryView { worker: worker.recorded(outcome, share.edge_bits), ..self.workers[i] },
            ),
            submitted: if outcome == ShareOutcome::Accepted {
                self.submitted.push(
                    SubmissionView { share: Self::forwarded(share), worker: worker.full_id },
                )
            } else {
                self.submitted
            },
            ..self
        }
    }

    /// The pool after the given shares of the worker at `i` went through the
    /// pipeline, one after the other.
    pub open spec fn after_shares(self, i: int, shares: Seq<ShareView>, checks: Seq<ProofCheck>)
        -> PoolView
        decreases shares.len(),
    {
        if shares.len() == 0 {
            self
        } else {
            self.after_shares(i, shares.drop_last(), checks.drop_last()).after_share(
                i,
                shares.last(),
                checks.last(),
            )
        }
    }

    /// The pool with the queue of submitted shares of the worker at `i`
    /// emptied.
    pub open spec fn drained(self, i: int) -> PoolView {
        PoolView {
            workers: self.workers.update(
                i,
                EntryView {
                    worker: WorkerView { shares: Seq::empty(), ..self.workers[i].worker },
                    ..self.workers[i]
                },
            ),
            ..self
        }
    }

    /// The pool after all submitted shares of the worker at `i` went through
    /// the pipeline, oldest first.
    pub open spec fn after_worker(self, i: int, checks: Seq<ProofCheck>) -> PoolView {
        self.drained(i).after_shares(i, self.workers[i].worker.shares, checks)
    }

    /// The pool after the submitted shares of the first `n` workers went
    /// through the pipeline, worker by worker.
    pub open spec fn after_workers(self, n: int, checks: Seq<Seq<ProofCheck>>) -> PoolView
        decreases n,
    {
        if n <= 0 {
            self
        } else {
            self.after_workers(n - 1, checks).after_worker(n - 1, checks[n - 1])
        }
    }

    /// The pool as it is when share `k` of the worker at `i` enters the
    /// pipeline.
    pub open spec fn before_share(self, i: int, k: int, checks: Seq<Seq<ProofCheck>>) -> PoolView {
        let start = self.after_workers(i, checks);
        start.drained(i).after_shares(
            i,
            start.workers[i].worker.shares.take(k),
            checks[i].take(k),
        )
    }

    /// Whether a report says of a share of the worker at `i` what the
    /// pipeline decides in this state, on a check that is possible.
    pub open spec fn judged(self, i: int, share: ShareView, report: ShareReport) -> bool {
        &&& report.outcome == self.outcome_of(i, share, report.check)
        &&& self.check_possible(share, report.check)
    }

    /// Whether a report says of share `k` of the worker at `i` what the
    /// pipeline decides when the share enters it, on a check that is
    /// possible.
    pub open spec fn reported(
        self,
        i: int,
        k: int,
        checks: Seq<Seq<ProofCheck>>,
        report: ShareReport,
    ) -> bool {
        &&& report.check == checks[i][k]
        &&& self.before_share(i, k, checks).judged(i, self.workers[i].worker.shares[k], report)
    }

    /// Whether every worker's tallies can take all the shares it submitted.
    pub open spec fn room_for_shares(self) -> bool {
        forall|i: int| 0 <= i < self.workers.len() ==> (#[trigger] self.workers[i]).worker.room_for_queue()
    }
}

/// What happens to the first `n` workers depends on their checks only.
pub proof fn lemma_after_workers_prefix(
    p: PoolView,
    n: int,
    a: Seq<Seq<ProofCheck>>,
    b: Seq<Seq<ProofCheck>>,
)
    requires
        n <= a.len(),
        n <= b.len(),
        forall|j: int| 0 <= j < n ==> a[j] == b[j],
    ensures
        p.after_workers(n, a) == p.after_workers(n, b),
    decreases n,
{
    if n > 0 {
        lemma_after_workers_prefix(p, n - 1, a, b);
    }
}

/// Putting shares of one worker through the pipeline leaves the other
/// records, the keys and the queues of unvalidated shares as they are.
pub proof fn lemma_after_shares_frame(
    p: PoolView,
    i: int,
    shares: Seq<ShareView>,
    checks: Seq<ProofCheck>,
)
    requires
        0 <= i < p.workers.len(),
    ensures
        p.after_shares(i, shares, checks).workers.len() == p.workers.len(),
        p.after_shares(i, shares, checks).workers[i].worker.shares == p.workers[i].worker.shares,
        p.after_shares(i, shares, checks).job == p.job,
        p.after_shares(i, shares, checks).job_versions == p.job_versions,
        forall|j: int|
            0 <= j < p.workers.len() ==> (#[trigger] p.after_shares(i, shares, checks).workers[j]).key
                == p.workers[j].key,
        forall|j: int|
            0 <= j < p.workers.len() && j != i ==> #[trigger] p.after_shares(
                i,
                shares,
                checks,
            ).workers[j] == p.workers[j],
    decreases shares.len(),
{
    if shares.len() > 0 {
        lemma_after_shares_frame(p, i, shares.drop_last(), checks.drop_last());
    }
}

impl Pool {
    /// Whether every worker's tallies can take all the shares it submitted.
    pub fn has_room_for_shares(&self) -> (r: bool)
        ensures
            r == self@.room_for_shares(),
    {
        let mut i: usize = 0;
        while i < self.workers.len()
            invariant
                i <= self.workers@.len(),
                forall|j: int| 0 <= j < i ==> (#[trigger] self@.workers[j]).worker.room_for_queue(),
            decreases self.workers@.len() - i,
        {
            if !self.workers.worker(i).has_room_for_queue() {
                assert(!self@.workers[i as int].worker.room_for_queue());
                return false;
            }
            i = i + 1;
        }
        true
    }

    /// Puts one share of the worker at `i` through the pipeline.
    ///
    /// The stages are tried in order: duplicate, proof size, staleness, job
    /// lookup, proof of work, difficulty. The report says how the share
    /// ended and what the proof-of-work check found.
    pub fn process_share(&mut self, i: usize, share: &Share) -> (report: ShareReport)
        requires
            old(self).wf(),
            i < old(self)@.workers.len(),
            old(self)@.workers[i as int].worker.room_for_one(share.edge_bits),
        ensures
            final(self).wf(),
            old(self)@.judged(i as int, share@, report),
            final(self)@ == old(self)@.after_share(i as int, share@, report.check),
    {
        let seen_before = self.duplicates.observe(&share.pow, share.worker_id);
        let pre_pow = self.job_versions.get(&share.job_id);
        let screened = screen_share(
            seen_before,
            share.edge_bits,
            share.height,
            self.job.height,
            pre_pow.is_some(),
        );
        let check = match (screened, pre_pow) {
            (None, Some(pre_pow)) => check_solution(
                pre_pow,
                share.edge_bits as u8,
                share.nonce,
                &share.pow,
            ),
            _ => ProofCheck::Failed,
        };
        let outcome = match screened {
            Some(outcome) => outcome,
            None => grade_solution(check, self.workers.worker(i).status.difficulty),
        };
        let worker = self.workers.worker_mut(i);
        worker.record(outcome, share.edge_bits);
        let credited = worker.full_id();
        match outcome {
            ShareOutcome::Accepted => {
                let mut forwarded = share.clone();
                forwarded.job_id = upstream_job_id(share.job_id, share.height);
                self.submitted.push(Submission { share: forwarded, worker: credited });
            },
            _ => {},
        }
        let ghost target = old(self)@.after_share(i as int, share@, check);
        assert(self@.workers =~= target.workers);
        assert(self@.submitted =~= target.submitted);
        proof {
            lemma_same_keys_unique(old(self)@.workers, self@.workers);
        }
        ShareReport { outcome, check }
    }

    /// Puts the given shares of the worker at `i` through the pipeline, one
    /// after the other. There is one report for each share.
    pub fn process_queue(&mut self, i: usize, shares: &Vec<Share>) -> (reports: Vec<ShareReport>)
        requires
            old(self).wf(),
            i < old(self)@.workers.len(),
            old(self)@.workers[i as int].worker.room_for(
                edges(shares_view(shares@)),
                shares@.len(),
            ),
        ensures
            final(self).wf(),
            reports@.len() == shares@.len(),
            final(self)@ == old(self)@.after_shares(
                i as int,
                shares_view(shares@),
                checks_in(reports@),
            ),
            forall|c: int|
                0 <= c < reports@.len() ==> old(self)@.after_shares(
                    i as int,
                    shares_view(shares@).take(c),
                    checks_in(reports@).take(c),
                ).judged(i as int, shares_view(shares@)[c], #[trigger] reports@[c]),
    {
        let ghost before = self@;
        let ghost queue = shares_view(shares@);
        let mut reports: Vec<ShareReport> = Vec::new();
        let mut k: usize = 0;
        while k < shares.len()
            invariant
                self.wf(),
                i < self@.workers.len(),
                k <= shares.len(),
                queue == shares_view(shares@),
                reports@.len() == k,
                self@ == before.after_shares(i as int, queue.take(k as int), checks_in(reports@)),
                self@.workers[i as int].worker.room_for(edges(queue), (shares.len() - k) as nat),
                forall|c: int|
                    0 <= c < k ==> before.after_shares(
                        i as int,
                        queue.take(c),
                        checks_in(reports@).take(c),
                    ).judged(i as int, queue[c], #[trigger] reports@[c]),
            decreases shares.len() - k,
        {
            let ghost state = self@;
            let ghost found = checks_in(reports@);
            let ghost earlier = reports@;
            let share = &shares[k];
            assert(share@ == queue[k as int]);
            assert(edges(queue)[k as int] == share.edge_bits);
            let report = self.process_share(i, share);
            reports.push(report);
            proof {
                let now = checks_in(reports@);
                assert(now.drop_last() =~= found);
                assert(now.last() == report.check);
                assert(queue.take(k + 1).drop_last() =~= queue.take(k as int));
                assert(queue.take(k + 1).last() == queue[k as int]);
                lemma_record_keeps_room(
                    state.workers[i as int].worker,
                    report.outcome,
                    share.edge_bits,
                    edges(queue),
                    (shares.len() - k - 1) as nat,
                );
                assert forall|c: int| 0 <= c < k + 1 implies before.after_shares(
                    i as int,
                    queue.take(c),
                    now.take(c),
                ).judged(i as int, queue[c], #[trigger] reports@[c]) by {
                    if c < k {
                        assert(now.take(c) =~= found.take(c));
                        assert(reports@[c] == earlier[c]);
                    } else {
                        assert(now.take(c) =~= found);
                    }
                }
            }
            k = k + 1;
        }
        assert(queue.take(k as int) =~= queue);
        reports
    }

    /// Puts every submitted share of every worker through the pipeline:
    /// worker by worker in the order of the registry, and for each worker
    /// oldest share first.
    ///
    /// The reports come in the same order: one list for each worker, one
    /// report for each of its shares.
    pub fn process_shares(&mut self) -> (reports: Vec<Vec<ShareReport>>)
        requires
            old(self).wf(),
            old(self)@.room_for_shares(),
        ensures
            final(self).wf(),
            reports@.len() == old(self)@.workers.len(),
            forall|i: int|
                0 <= i < reports@.len() ==> (#[trigger] reports@[i])@.len()
                    == old(self)@.workers[i].worker.shares.len(),
            forall|i: int, k: int|
                0 <= i < reports@.len() && 0 <= k < reports@[i]@.len() ==> old(self)@.reported(
                    i,
                    k,
                    checks_of(reports@),
                    #[trigger] reports@[i]@[k],
                ),
            final(self)@ == old(self)@.after_workers(
                old(self)@.workers.len() as int,
                checks_of(reports@),
            ),
    {
        let ghost before = self@;
        let mut reports: Vec<Vec<ShareReport>> = Vec::new();
        let mut i: usize = 0;
        while i < self.workers.len()
            invariant
                self.wf(),
                i <= self.workers@.len(),
                self@.workers.len() == before.workers.len(),
                before.room_for_shares(),
                reports@.len() == i,
                self@ == before.after_workers(i as int, checks_of(reports@)),
                forall|j: int| i <= j < before.workers.len() ==> self@.workers[j] == before.workers[j],
                forall|a: int|
                    0 <= a < i ==> (#[trigger] reports@[a])@.len()
                        == before.workers[a].worker.shares.len(),
                forall|a: int, k: int|
                    0 <= a < i && 0 <= k < reports@[a]@.len() ==> before.reported(
                        a,
                        k,
                        checks_of(reports@),
                        #[trigger] reports@[a]@[k],
                    ),
            decreases self.workers@.len() - i,
        {
            let ghost start = self@;
            let ghost done = checks_of(reports@);
            let ghost earlier = reports@;
            let ghost queue = start.workers[i as int].worker.shares;
            assert(before.workers[i as int].worker.room_for_queue());
            let shares = self.workers.worker_mut(i).get_shares();
            let ghost emptied = start.drained(i as int);
            assert(self@.workers =~= emptied.workers);
            let mine = self.process_queue(i, &shares);
            let ghost found = checks_in(mine@);
            reports.push(mine);
            proof {
                let all = checks_of(reports@);
                assert(all[i as int] == found);
                assert(self@ == start.after_worker(i as int, found));
                lemma_after_workers_prefix(before, i as int, done, all);
                assert forall|a: int, c: int|
                    0 <= a < i + 1 && 0 <= c < reports@[a]@.len() implies before.reported(
                    a,
                    c,
                    all,
                    #[trigger] reports@[a]@[c],
                ) by {
                    lemma_after_workers_prefix(before, a, done, all);
                    if a < i {
                        assert(reports@[a] == earlier[a]);
                        assert(all[a] == done[a]);
                        assert(before.reported(a, c, done, earlier[a]@[c]));
                    } else {
                        assert(before.after_workers(a, all) == start);
                        assert(mine@[c] == reports@[a]@[c]);
                    }
                }
                lemma_after_shares_frame(emptied, i as int, queue, found);
            }
            i = i + 1;
        }
        reports
    }
}

/// Once a proof vector went through the pipeline, a second share with the
/// same proof vector is a duplicate, whichever worker submits it and
/// whatever else it holds. A share whose proof vector was not seen before is
/// not rejected as a duplicate.
pub proof fn lemma_duplicate_exclusion(
    p: PoolView,
    i: int,
    first: ShareView,
    first_check: ProofCheck,
    j: int,
    second: ShareView,
    second_check: ProofCheck,
)
    requires
        0 <= i < p.workers.len(),
        0 <= j < p.workers.len(),
        first.pow == second.pow,
    ensures
        !p.duplicates.contains_key(first.pow) ==> p.outcome_of(i, first, first_check)
            != ShareOutcome::Duplicate,
        p.after_share(i, first, first_check).outcome_of(j, second, second_check)
            == ShareOutcome::Duplicate,
        p.after_share(i, first, first_check).after_share(j, second, second_check).duplicates
            == p.after_share(i, first, first_check).duplicates,
{
}

/// A job at another height starts a new epoch: no proof vector counts as
/// seen, and the new job is the only one known. A share for the new job, of
/// acceptable size, then ends as the proof-of-work check and the difficulty
/// decide, whether or not its proof vector was seen at the old height.
pub proof fn lemma_epoch_reset(
    p: PoolView,
    upstream: JobView,
    i: int,
    share: ShareView,
    check: ProofCheck,
)
    requires
        0 <= i < p.workers.len(),
        p.is_new_job(upstream),
        p.job.height != upstream.height,
    ensures
        p.with_job(upstream).duplicates == Map::<Seq<u64>, u64>::empty(),
        p.with_job(upstream).job_versions == Map::<u64, Seq<char>>::empty().insert(
            upstream.issued().job_id,
            upstream.pre_pow,
        ),
        p.with_job(upstream).outcome_of(i, share, check) != ShareOutcome::Duplicate,
        acceptable_size(share.edge_bits) && share.height == upstream.height
            && share.job_id == upstream.issued().job_id ==> p.with_job(upstream).outcome_of(
            i,
            share,
            check,
        ) == grading(check, p.with_job(upstream).workers[i].worker.status.difficulty),
{
}

/// A job at the same height keeps the epoch: what was seen stays seen, and
/// every job issued at this height stays known.
pub proof fn lemma_same_height_keeps_epoch(p: PoolView, upstream: JobView, job_id: u64)
    requires
        p.is_new_job(upstream),
        p.job.height == upstream.height,
    ensures
        p.with_job(upstream).duplicates == p.duplicates,
        p.job_versions.contains_key(job_id) ==> p.with_job(upstream).job_versions.contains_key(
            job_id,
        ),
        p.with_job(upstream).job_versions.contains_key(upstream.issued().job_id),
        p.with_job(upstream).job_versions[upstream.issued().job_id] == upstream.pre_pow,
{
}

} // verus!
