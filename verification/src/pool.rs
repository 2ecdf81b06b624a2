//! The pool controller: the current job, the registry of workers, and the
//! bookkeeping of one height.
//!
//! The controller talks to nobody. Its caller hands it the upstream's job
//! and puts what workers sent into their records; the controller queues what
//! is to be sent, in each worker's outbox and in [`Pool::submitted`].

use crate::duplicates::DuplicateSet;
use crate::job::{JobTemplate, JobView, JOB_ID_FACTOR};
use crate::registry::{healthy, inserted, lemma_same_keys_unique, EntryView, Registry};
use crate::share::{Share, ShareView};
use crate::worker::{Worker, WorkerView};
use std::collections::HashMap;
use vstd::prelude::*;
use vstd::string::StringExecFns;

verus! {

/// The difficulty a pool starts with, until its configuration is applied.
pub const DEFAULT_DIFFICULTY: u64 = 8;

/// What the controller is configured with.
#[derive(Clone, Copy, Debug, PartialEq, Eq, Structural)]
pub struct Config {
    /// The difficulty assigned to workers that connect.
    pub difficulty: u64,
}

/// A share that is to be forwarded upstream, with the identifier of the
/// worker it is credited to.
#[derive(Debug)]
pub struct Submission {
    pub share: Share,
    pub worker: String,
}

/// The mathematical content of a [`Submission`].
#[verifier::ext_equal]
pub struct SubmissionView {
    pub share: ShareView,
    pub worker: Seq<char>,
}

impl View for Submission {
    type V = SubmissionView;

    open spec fn view(&self) -> SubmissionView {
        SubmissionView { share: self.share@, worker: self.worker@ }
    }
}

/// The contents of a queue of submissions.
pub open spec fn submissions_view(queue: Seq<Submission>) -> Seq<SubmissionView> {
    queue.map_values(|s: Submission| s@)
}

/// The contents of a map from job identifiers to pre-headers.
pub open spec fn versions_view(versions: Map<u64, String>) -> Map<u64, Seq<char>> {
    versions.map_values(|s: String| s@)
}

/// A mining pool.
#[derive(Debug)]
pub struct Pool {
    pub id: String,
    /// The job that workers are on, under its derived identifier.
    pub job: JobTemplate,
    pub config: Config,
    pub difficulty: u64,
    pub workers: Registry,
    /// The proof vectors seen at the height of the job.
    pub duplicates: DuplicateSet,
    /// The pre-header of every job issued at the height of the job.
    pub job_versions: HashMap<u64, String>,
    /// Accepted shares that wait to be forwarded upstream, oldest first.
    pub submitted: Vec<Submission>,
}

/// The mathematical content of a [`Pool`].
#[verifier::ext_equal]
pub struct PoolView {
    pub id: Seq<char>,
    pub job: JobView,
    pub config: Config,
    pub difficulty: u64,
    pub workers: Seq<EntryView>,
    pub duplicates: Map<Seq<u64>, u64>,
    pub job_versions: Map<u64, Seq<char>>,
    pub submitted: Seq<SubmissionView>,
}

impl View for Pool {
    type V = PoolView;

    open spec fn view(&self) -> PoolView {
        PoolView {
            id: self.id@,
            job: self.job@,
            config: self.config,
            difficulty: self.difficulty,
            workers: self.workers@,
            duplicates: self.duplicates@,
            job_versions: versions_view(self.job_versions@),
            submitted: submissions_view(self.submitted@),
        }
    }
}

impl WorkerView {
    /// This record after the worker was put on a job: it is assigned a
    /// difficulty and the height of the job, the job is queued for it, and
    /// its per-height tallies start over.
    pub open spec fn briefed(self, job: JobView, assigned: u64, tallied: u64) -> WorkerView {
        self.with_difficulty(assigned).with_height(job.height).job_sent(job).reset(
            job.height,
            tallied,
        )
    }
}

/// The registry after a job was broadcast: every authenticated worker is
/// put on the job, the others are left alone.
pub open spec fn broadcast(reg: Seq<EntryView>, job: JobView, assigned: u64, tallied: u64) -> Seq<
    EntryView,
> {
    Seq::new(
        reg.len(),
        |i: int|
            if reg[i].worker.authenticated {
                EntryView { worker: reg[i].worker.briefed(job, assigned, tallied), ..reg[i] }
            } else {
                reg[i]
            },
    )
}

/// The registry after jobs were pushed to the workers that wait for one:
/// every authenticated worker that needs a job is put on the job, the others
/// are left alone.
pub open spec fn supplied(reg: Seq<EntryView>, job: JobView, difficulty: u64) -> Seq<EntryView> {
    Seq::new(
        reg.len(),
        |i: int|
            if reg[i].worker.needs_job && reg[i].worker.authenticated {
                EntryView { worker: reg[i].worker.briefed(job, difficulty, difficulty), ..reg[i] }
            } else {
                reg[i]
            },
    )
}

impl PoolView {
    /// A pool that has seen nothing yet.
    pub open spec fn initial(config: Config) -> PoolView {
        PoolView {
            id: "Grin Pool"@,
            job: JobView::unset(),
            config,
            difficulty: DEFAULT_DIFFICULTY,
            workers: Seq::empty(),
            duplicates: Map::empty(),
            job_versions: Map::empty(),
            submitted: Seq::empty(),
        }
    }

    /// Whether the upstream's job is another version than the current one.
    pub open spec fn is_new_job(self, upstream: JobView) -> bool {
        self.job.pre_pow != upstream.pre_pow
    }

    /// The pool after it was shown the upstream's job.
    ///
    /// A job with the pre-header of the current one changes nothing. Another
    /// one becomes the current job under its derived identifier and is
    /// broadcast; if its height is new, what was kept for the old height is
    /// dropped; its pre-header is kept under its identifier.
    pub open spec fn with_job(self, upstream: JobView) -> PoolView {
        if !self.is_new_job(upstream) {
            self
        } else {
            let job = upstream.issued();
            let new_height = self.job.height != upstream.height;
            PoolView {
                job,
                workers: broadcast(self.workers, job, self.config.difficulty, self.difficulty),
                duplicates: if new_height {
                    Map::empty()
                } else {
                    self.duplicates
                },
                job_versions: (if new_height {
                    Map::empty()
                } else {
                    self.job_versions
                }).insert(job.job_id, job.pre_pow),
                ..self
            }
        }
    }
}

impl Pool {
    /// The registry holds no key twice.
    pub open spec fn wf(&self) -> bool {
        self.workers.wf()
    }

    /// Creates a pool.
    pub fn new(config: Config) -> (r: Pool)
        ensures
            r@ == PoolView::initial(config),
            r.wf(),
    {
        let r = Pool {
            id: String::from_str("Grin Pool"),
            job: JobTemplate::new(),
            config,
            difficulty: DEFAULT_DIFFICULTY,
            workers: Registry::new(),
            duplicates: DuplicateSet::new(),
            job_versions: HashMap::new(),
            submitted: Vec::new(),
        };
        assert(r@.job_versions =~= Map::<u64, Seq<char>>::empty());
        assert(r@.submitted =~= Seq::<SubmissionView>::empty());
        r
    }

    /// Takes the pool's difficulty from its configuration.
    pub fn apply_config(&mut self)
        ensures
            final(self)@ == (PoolView { difficulty: old(self)@.config.difficulty, ..old(self)@ }),
            old(self).wf() ==> final(self).wf(),
    {
        self.difficulty = self.config.difficulty;
    }

    /// Registers a worker that has just connected, under a placeholder key
    /// and with the configured difficulty.
    pub fn register(&mut self, key: String, connection_id: u64)
        requires
            old(self).wf(),
        ensures
            final(self).wf(),
            final(self)@ == (PoolView {
                workers: inserted(
                    old(self)@.workers,
                    key@,
                    WorkerView::connected(connection_id, key@, old(self)@.config.difficulty),
                ),
                ..old(self)@
            }),
    {
        let worker = Worker::new(connection_id, key.clone(), self.config.difficulty);
        let _ = self.workers.insert(key, worker);
    }

    /// Takes the accepted shares that wait to be forwarded, oldest first.
    pub fn take_submitted(&mut self) -> (r: Vec<Submission>)
        ensures
            submissions_view(r@) == old(self)@.submitted,
            final(self)@ == (PoolView { submitted: Seq::empty(), ..old(self)@ }),
            old(self).wf() ==> final(self).wf(),
    {
        let mut taken: Vec<Submission> = Vec::new();
        std::mem::swap(&mut self.submitted, &mut taken);
        assert(submissions_view(self.submitted@) =~= Seq::<SubmissionView>::empty());
        taken
    }

    /// Puts every authenticated worker on the current job.
    pub fn broadcast_job(&mut self)
        requires
            old(self).wf(),
        ensures
            final(self).wf(),
            final(self)@ == (PoolView {
                workers: broadcast(
                    old(self)@.workers,
                    old(self)@.job,
                    old(self)@.config.difficulty,
                    old(self)@.difficulty,
                ),
                ..old(self)@
            }),
    {
        let ghost before = self@;
        let ghost target = broadcast(
            before.workers,
            before.job,
            before.config.difficulty,
            before.difficulty,
        );
        let mut i: usize = 0;
        while i < self.workers.len()
            invariant
                i <= self.workers@.len(),
                self.workers@.len() == before.workers.len(),
                self@ == (PoolView { workers: self@.workers, ..before }),
                target == broadcast(
                    before.workers,
                    before.job,
                    before.config.difficulty,
                    before.difficulty,
                ),
                forall|j: int| 0 <= j < i ==> self.workers@[j] == target[j],
                forall|j: int| i <= j < before.workers.len() ==> self.workers@[j] == before.workers[j],
            decreases self.workers@.len() - i,
        {
            let ghost current = self.workers@;
            if self.workers.worker(i).authenticated {
                let worker = self.workers.worker_mut(i);
                worker.set_difficulty(self.config.difficulty);
                worker.set_height(self.job.height);
                worker.send_job(&self.job);
                worker.reset_worker_shares(self.job.height, self.difficulty);
            }
            assert(self.workers@ =~= current.update(i as int, target[i as int]));
            i = i + 1;
        }
        assert(self.workers@ =~= target);
        proof {
            lemma_same_keys_unique(before.workers, target);
        }
    }

    /// Puts every authenticated worker that waits for a job on the current
    /// job.
    pub fn send_jobs(&mut self)
        requires
            old(self).wf(),
        ensures
            final(self).wf(),
            final(self)@ == (PoolView {
                workers: supplied(old(self)@.workers, old(self)@.job, old(self)@.difficulty),
                ..old(self)@
            }),
    {
        let ghost before = self@;
        let ghost target = supplied(before.workers, before.job, before.difficulty);
        let mut i: usize = 0;
        while i < self.workers.len()
            invariant
                i <= self.workers@.len(),
                self.workers@.len() == before.workers.len(),
                self@ == (PoolView { workers: self@.workers, ..before }),
                target == supplied(before.workers, before.job, before.difficulty),
                forall|j: int| 0 <= j < i ==> self.workers@[j] == target[j],
                forall|j: int| i <= j < before.workers.len() ==> self.workers@[j] == before.workers[j],
            decreases self.workers@.len() - i,
        {
            let ghost current = self.workers@;
            if self.workers.worker(i).needs_job && self.workers.worker(i).authenticated {
                let worker = self.workers.worker_mut(i);
                worker.set_difficulty(self.difficulty);
                worker.set_height(self.job.height);
                worker.reset_worker_shares(self.job.height, self.difficulty);
                worker.send_job(&self.job);
            }
            assert(self.workers@ =~= current.update(i as int, target[i as int]));
            i = i + 1;
        }
        assert(self.workers@ =~= target);
        proof {
            lemma_same_keys_unique(before.workers, target);
        }
    }

    /// Shows the pool the upstream's job.
    pub fn accept_new_job(&mut self, upstream: &JobTemplate)
        requires
            old(self).wf(),
            upstream@.id_fits(),
        ensures
            final(self).wf(),
            final(self)@ == old(self)@.with_job(upstream@),
    {
        if self.job.pre_pow != upstream.pre_pow {
            let new_height = self.job.height != upstream.height;
            let mut new_job = upstream.clone();
            new_job.job_id = new_job.height * JOB_ID_FACTOR + new_job.job_id;
            self.job = new_job;
            self.broadcast_job();
            if new_height {
                self.duplicates.clear();
                self.job_versions.clear();
            }
            self.job_versions.insert(self.job.job_id, self.job.pre_pow.clone());
            assert(self@.job_versions =~= old(self)@.with_job(upstream@).job_versions);
        }
    }

    /// Drops every worker whose connection failed. Returns how many workers
    /// are left.
    pub fn clean_workers(&mut self) -> (left: usize)
        requires
            old(self).wf(),
        ensures
            final(self).wf(),
            final(self)@ == (PoolView {
                workers: healthy(old(self)@.workers, old(self)@.workers.len() as int),
                ..old(self)@
            }),
            left == final(self)@.workers.len(),
            left <= old(self)@.workers.len(),
    {
        self.workers.remove_errored()
    }
}

} // verus!
