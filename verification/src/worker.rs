//! The record that the pool keeps of one connected worker.
//!
//! A record holds no connection. What a worker sent is put into the record
//! by [`Worker::log_in`], [`Worker::request_job`] and [`Worker::submit`];
//! what the pool wants sent to it is queued in the record's outbox and taken
//! out with [`Worker::take_outbox`].

use crate::job::{JobTemplate, JobView};
use crate::share::{Counter, Share, ShareError, ShareOutcome, ShareView};
use std::collections::HashMap;
use vstd::prelude::*;
use vstd::string::StringExecFns;

verus! {

/// The three tallies of shares.
#[derive(Clone, Copy, Debug, PartialEq, Eq, Structural)]
pub struct ShareCount {
    pub accepted: u64,
    pub rejected: u64,
    pub stale: u64,
}

impl ShareCount {
    /// No shares.
    pub open spec fn spec_zero() -> ShareCount {
        ShareCount { accepted: 0, rejected: 0, stale: 0 }
    }

    /// Whether `n` more shares can be added to any of the tallies.
    pub open spec fn room_for(self, n: nat) -> bool {
        &&& self.accepted + n <= u64::MAX
        &&& self.rejected + n <= u64::MAX
        &&& self.stale + n <= u64::MAX
    }

    /// This count with one more share in the given tally.
    pub open spec fn bumped(self, counter: Counter) -> ShareCount {
        match counter {
            Counter::Accepted => ShareCount { accepted: (self.accepted + 1) as u64, ..self },
            Counter::Rejected => ShareCount { rejected: (self.rejected + 1) as u64, ..self },
            Counter::Stale => ShareCount { stale: (self.stale + 1) as u64, ..self },
        }
    }

    /// No shares.
    #[verifier::when_used_as_spec(spec_zero)]
    pub fn zero() -> (r: ShareCount)
        ensures
            r == ShareCount::spec_zero(),
    {
        ShareCount { accepted: 0, rejected: 0, stale: 0 }
    }

    /// Whether `n` more shares can be added to any of the tallies.
    pub fn has_room(self, n: usize) -> (r: bool)
        ensures
            r == self.room_for(n as nat),
    {
        let n = n as u64;
        self.accepted <= u64::MAX - n && self.rejected <= u64::MAX - n && self.stale <= u64::MAX
            - n
    }

    /// Adds one share to the given tally.
    pub fn bump(self, counter: Counter) -> (r: ShareCount)
        requires
            self.room_for(1),
        ensures
            r == self.bumped(counter),
    {
        match counter {
            Counter::Accepted => ShareCount { accepted: self.accepted + 1, ..self },
            Counter::Rejected => ShareCount { rejected: self.rejected + 1, ..self },
            Counter::Stale => ShareCount { stale: self.stale + 1, ..self },
        }
    }
}

/// The difficulty and height a worker mines at, and its tallies since it
/// connected.
#[derive(Clone, Copy, Debug, PartialEq, Eq, Structural)]
pub struct WorkerStatus {
    pub difficulty: u64,
    pub height: u64,
    pub count: ShareCount,
}

/// The tallies of a worker for one height and difficulty, by edge bits.
#[derive(Debug)]
pub struct WorkerShares {
    pub height: u64,
    pub difficulty: u64,
    pub by_edge_bits: HashMap<u32, ShareCount>,
}

/// The mathematical content of [`WorkerShares`].
#[verifier::ext_equal]
pub struct WorkerSharesView {
    pub height: u64,
    pub difficulty: u64,
    pub by_edge_bits: Map<u32, ShareCount>,
}

impl View for WorkerShares {
    type V = WorkerSharesView;

    open spec fn view(&self) -> WorkerSharesView {
        WorkerSharesView {
            height: self.height,
            difficulty: self.difficulty,
            by_edge_bits: self.by_edge_bits@,
        }
    }
}

impl WorkerSharesView {
    /// Tallies with no shares, for the given height and difficulty.
    pub open spec fn fresh(height: u64, difficulty: u64) -> WorkerSharesView {
        WorkerSharesView { height, difficulty, by_edge_bits: Map::empty() }
    }

    /// The count for the given edge bits; zero where there is none yet.
    pub open spec fn count(self, edge_bits: u32) -> ShareCount {
        if self.by_edge_bits.contains_key(edge_bits) {
            self.by_edge_bits[edge_bits]
        } else {
            ShareCount::spec_zero()
        }
    }

    /// These tallies with one more share of the given edge bits.
    pub open spec fn tallied(self, edge_bits: u32, counter: Counter) -> WorkerSharesView {
        WorkerSharesView {
            by_edge_bits: self.by_edge_bits.insert(edge_bits, self.count(edge_bits).bumped(counter)),
            ..self
        }
    }
}

/// A message that the pool wants sent to a worker.
#[derive(Debug)]
pub enum Outbound {
    /// A job. `response` says that the worker had asked for one, so that the
    /// job answers the request; otherwise it is a notification.
    Job { job: JobTemplate, response: bool },
    /// The acknowledgment of a submitted share.
    SubmitOk,
    /// The rejection of a submitted share.
    SubmitError(ShareError),
}

/// The mathematical content of an [`Outbound`] message.
#[verifier::ext_equal]
pub enum OutboundView {
    Job { job: JobView, response: bool },
    SubmitOk,
    SubmitError(ShareError),
}

impl View for Outbound {
    type V = OutboundView;

    open spec fn view(&self) -> OutboundView {
        match self {
            Outbound::Job { job, response } => OutboundView::Job { job: job@, response: *response },
            Outbound::SubmitOk => OutboundView::SubmitOk,
            Outbound::SubmitError(e) => OutboundView::SubmitError(*e),
        }
    }
}

/// The message that tells a worker how its share ended.
pub open spec fn reply_to(outcome: ShareOutcome) -> OutboundView {
    match outcome.spec_reply() {
        None => OutboundView::SubmitOk,
        Some(e) => OutboundView::SubmitError(e),
    }
}

/// The record of one connected worker.
#[derive(Debug)]
pub struct Worker {
    /// The number of the connection, stamped on each share it submits.
    pub connection_id: u64,
    /// The identifier the worker goes by: the placeholder it was registered
    /// under until it logs in, then `login-rig_id`.
    pub full_id: String,
    pub login: String,
    pub rig_id: String,
    pub authenticated: bool,
    pub needs_job: bool,
    pub requested_job: bool,
    pub status: WorkerStatus,
    pub worker_shares: WorkerShares,
    /// Shares that were submitted and not yet validated, oldest first.
    pub shares: Vec<Share>,
    /// Messages that wait to be sent, oldest first.
    pub outbox: Vec<Outbound>,
    pub error: bool,
}

/// The mathematical content of a [`Worker`].
#[verifier::ext_equal]
pub struct WorkerView {
    pub connection_id: u64,
    pub full_id: Seq<char>,
    pub login: Seq<char>,
    pub rig_id: Seq<char>,
    pub authenticated: bool,
    pub needs_job: bool,
    pub requested_job: bool,
    pub status: WorkerStatus,
    pub worker_shares: WorkerSharesView,
    pub shares: Seq<ShareView>,
    pub outbox: Seq<OutboundView>,
    pub error: bool,
}

/// The contents of a queue of shares.
pub open spec fn shares_view(shares: Seq<Share>) -> Seq<ShareView> {
    shares.map_values(|s: Share| s@)
}

/// The contents of a queue of messages.
pub open spec fn outbox_view(outbox: Seq<Outbound>) -> Seq<OutboundView> {
    outbox.map_values(|m: Outbound| m@)
}

impl View for Worker {
    type V = WorkerView;

    open spec fn view(&self) -> WorkerView {
        WorkerView {
            connection_id: self.connection_id,
            full_id: self.full_id@,
            login: self.login@,
            rig_id: self.rig_id@,
            authenticated: self.authenticated,
            needs_job: self.needs_job,
            requested_job: self.requested_job,
            status: self.status,
            worker_shares: self.worker_shares@,
            shares: shares_view(self.shares@),
            outbox: outbox_view(self.outbox@),
            error: self.error,
        }
    }
}

impl WorkerView {
    /// The record of a worker that has just connected.
    pub open spec fn connected(connection_id: u64, id: Seq<char>, difficulty: u64) -> WorkerView {
        WorkerView {
            connection_id,
            full_id: id,
            login: Seq::empty(),
            rig_id: Seq::empty(),
            authenticated: false,
            needs_job: false,
            requested_job: false,
            status: WorkerStatus { difficulty, height: 0, count: ShareCount::spec_zero() },
            worker_shares: WorkerSharesView::fresh(0, difficulty),
            shares: Seq::empty(),
            outbox: Seq::empty(),
            error: false,
        }
    }

    /// The identifier a worker goes by once it has logged in.
    pub open spec fn composite_id(login: Seq<char>, rig_id: Seq<char>) -> Seq<char> {
        login + "-"@ + rig_id
    }

    /// This record after the worker logged in.
    pub open spec fn logged_in(self, login: Seq<char>, rig_id: Seq<char>) -> WorkerView {
        WorkerView {
            full_id: Self::composite_id(login, rig_id),
            login,
            rig_id,
            authenticated: true,
            needs_job: true,
            ..self
        }
    }

    /// This record with another difficulty.
    pub open spec fn with_difficulty(self, difficulty: u64) -> WorkerView {
        WorkerView { status: WorkerStatus { difficulty, ..self.status }, ..self }
    }

    /// This record with another height.
    pub open spec fn with_height(self, height: u64) -> WorkerView {
        WorkerView { status: WorkerStatus { height, ..self.status }, ..self }
    }

    /// This record with its per-height tallies started over.
    pub open spec fn reset(self, height: u64, difficulty: u64) -> WorkerView {
        WorkerView { worker_shares: WorkerSharesView::fresh(height, difficulty), ..self }
    }

    /// This record with one more message queued.
    pub open spec fn sent(self, message: OutboundView) -> WorkerView {
        WorkerView { outbox: self.outbox.push(message), ..self }
    }

    /// This record after a job was queued for the worker: the job carries the
    /// worker's difficulty and answers a pending request, and the worker no
    /// longer waits for one.
    pub open spec fn job_sent(self, job: JobView) -> WorkerView {
        WorkerView {
            needs_job: false,
            requested_job: false,
            ..self.sent(
                OutboundView::Job {
                    job: job.for_difficulty(self.status.difficulty),
                    response: self.requested_job,
                },
            )
        }
    }

    /// This record after a share of the given edge bits ended in `outcome`:
    /// one tally is raised, overall and for the edge bits, and the worker is
    /// told.
    pub open spec fn recorded(self, outcome: ShareOutcome, edge_bits: u32) -> WorkerView {
        WorkerView {
            status: WorkerStatus {
                count: self.status.count.bumped(outcome.spec_counter()),
                ..self.status
            },
            worker_shares: self.worker_shares.tallied(edge_bits, outcome.spec_counter()),
            ..self.sent(reply_to(outcome))
        }
    }

    /// Whether the tallies can take one more share of the given edge bits.
    pub open spec fn room_for_one(self, edge_bits: u32) -> bool {
        self.status.count.room_for(1) && self.worker_shares.count(edge_bits).room_for(1)
    }

    /// Whether the tallies can take `n` more shares, each of one of the given
    /// edge bits.
    pub open spec fn room_for(self, edge_bits: Seq<u32>, n: nat) -> bool {
        &&& self.status.count.room_for(n)
        &&& forall|k: int|
            0 <= k < edge_bits.len() ==> self.worker_shares.count(#[trigger] edge_bits[k]).room_for(
                n,
            )
    }

    /// Whether the tallies can take every share that waits in the queue.
    pub open spec fn room_for_queue(self) -> bool {
        self.room_for(edges(self.shares), self.shares.len())
    }
}

/// The edge bits of the shares in a queue.
pub open spec fn edges(shares: Seq<ShareView>) -> Seq<u32> {
    shares.map_values(|s: ShareView| s.edge_bits)
}

impl Worker {
    /// The record of a worker that has just connected, under the identifier
    /// it was registered with.
    pub fn new(connection_id: u64, id: String, difficulty: u64) -> (r: Worker)
        ensures
            r@ == WorkerView::connected(connection_id, id@, difficulty),
    {
        Worker {
            connection_id,
            full_id: id,
            login: String::new(),
            rig_id: String::new(),
            authenticated: false,
            needs_job: false,
            requested_job: false,
            status: WorkerStatus { difficulty, height: 0, count: ShareCount::zero() },
            worker_shares: WorkerShares { height: 0, difficulty, by_edge_bits: HashMap::new() },
            shares: Vec::new(),
            outbox: Vec::new(),
            error: false,
        }
    }

    /// The identifier the worker goes by.
    pub fn full_id(&self) -> (r: String)
        ensures
            r@ == self@.full_id,
    {
        self.full_id.clone()
    }

    /// Whether the connection of the worker failed.
    pub fn error(&self) -> (r: bool)
        ensures
            r == self@.error,
    {
        self.error
    }

    /// Notes that the connection of the worker failed.
    pub fn set_error(&mut self)
        ensures
            final(self)@ == (WorkerView { error: true, ..old(self)@ }),
    {
        self.error = true;
    }

    /// Notes that the worker logged in. From now on it goes by
    /// `login-rig_id`, and it waits for a job.
    pub fn log_in(&mut self, login: String, rig_id: String)
        ensures
            final(self)@ == old(self)@.logged_in(login@, rig_id@),
    {
        let composite = login.clone().concat("-").concat(rig_id.as_str());
        self.full_id = composite;
        self.login = login;
        self.rig_id = rig_id;
        self.authenticated = true;
        self.needs_job = true;
    }

    /// Notes that the worker asked for a job.
    pub fn request_job(&mut self)
        ensures
            final(self)@ == (WorkerView { needs_job: true, requested_job: true, ..old(self)@ }),
    {
        self.needs_job = true;
        self.requested_job = true;
    }

    /// Queues a share that the worker submitted, stamped with the number of
    /// its connection.
    pub fn submit(&mut self, share: Share)
        ensures
            final(self)@ == (WorkerView {
                shares: old(self)@.shares.push(
                    ShareView { worker_id: old(self)@.connection_id, ..share@ },
                ),
                ..old(self)@
            }),
    {
        let stamped = Share { worker_id: self.connection_id, ..share };
        self.shares.push(stamped);
        assert(shares_view(self.shares@) =~= shares_view(old(self).shares@).push(stamped@));
    }

    /// Takes the submitted shares out of the record, oldest first.
    pub fn get_shares(&mut self) -> (r: Vec<Share>)
        ensures
            shares_view(r@) == old(self)@.shares,
            final(self)@ == (WorkerView { shares: Seq::empty(), ..old(self)@ }),
    {
        let mut taken: Vec<Share> = Vec::new();
        std::mem::swap(&mut self.shares, &mut taken);
        assert(shares_view(self.shares@) =~= Seq::<ShareView>::empty());
        taken
    }

    /// Takes the queued messages out of the record, oldest first.
    pub fn take_outbox(&mut self) -> (r: Vec<Outbound>)
        ensures
            outbox_view(r@) == old(self)@.outbox,
            final(self)@ == (WorkerView { outbox: Seq::empty(), ..old(self)@ }),
    {
        let mut taken: Vec<Outbound> = Vec::new();
        std::mem::swap(&mut self.outbox, &mut taken);
        assert(outbox_view(self.outbox@) =~= Seq::<OutboundView>::empty());
        taken
    }

    /// Assigns a difficulty.
    pub fn set_difficulty(&mut self, difficulty: u64)
        ensures
            final(self)@ == old(self)@.with_difficulty(difficulty),
    {
        self.status.difficulty = difficulty;
    }

    /// Assigns a height.
    pub fn set_height(&mut self, height: u64)
        ensures
            final(self)@ == old(self)@.with_height(height),
    {
        self.status.height = height;
    }

    /// Starts the per-height tallies over, for the given height and
    /// difficulty.
    pub fn reset_worker_shares(&mut self, height: u64, difficulty: u64)
        ensures
            final(self)@ == old(self)@.reset(height, difficulty),
    {
        self.worker_shares.height = height;
        self.worker_shares.difficulty = difficulty;
        self.worker_shares.by_edge_bits.clear();
    }

    /// Queues a message for the worker.
    pub fn send(&mut self, message: Outbound)
        ensures
            final(self)@ == old(self)@.sent(message@),
    {
        self.outbox.push(message);
        assert(outbox_view(self.outbox@) =~= outbox_view(old(self).outbox@).push(message@));
    }

    /// Queues a job for the worker, with the worker's own difficulty.
    pub fn send_job(&mut self, job: &JobTemplate)
        ensures
            final(self)@ == old(self)@.job_sent(job@),
    {
        let mut own = job.clone();
        own.difficulty = self.status.difficulty;
        let response = self.requested_job;
        self.needs_job = false;
        self.requested_job = false;
        self.send(Outbound::Job { job: own, response });
    }

    /// The tally for the given edge bits; zero where there is none yet.
    pub fn count(&self, edge_bits: u32) -> (r: ShareCount)
        ensures
            r == self@.worker_shares.count(edge_bits),
    {
        match self.worker_shares.by_edge_bits.get(&edge_bits) {
            Some(count) => *count,
            None => ShareCount::zero(),
        }
    }

    /// Whether the tallies can take one more share of the given edge bits.
    pub fn has_room(&self, edge_bits: u32) -> (r: bool)
        ensures
            r == self@.room_for_one(edge_bits),
    {
        self.status.count.has_room(1) && self.count(edge_bits).has_room(1)
    }

    /// Whether the tallies can take every share that waits in the queue.
    pub fn has_room_for_queue(&self) -> (r: bool)
        ensures
            r == self@.room_for_queue(),
    {
        let n = self.shares.len();
        if !self.status.count.has_room(n) {
            return false;
        }
        let ghost queue = edges(self@.shares);
        let mut k: usize = 0;
        while k < self.shares.len()
            invariant
                k <= self.shares.len(),
                n == self.shares.len(),
                queue == edges(self@.shares),
                queue.len() == self.shares.len(),
                forall|j: int|
                    0 <= j < k ==> self@.worker_shares.count(#[trigger] queue[j]).room_for(
                        n as nat,
                    ),
            decreases self.shares.len() - k,
        {
            assert(queue[k as int] == self.shares@[k as int].edge_bits);
            if !self.count(self.shares[k].edge_bits).has_room(n) {
                return false;
            }
            k = k + 1;
        }
        true
    }

    /// Records how a share of the given edge bits ended: raises one tally,
    /// overall and for the edge bits, and queues the reply.
    pub fn record(&mut self, outcome: ShareOutcome, edge_bits: u32)
        requires
            old(self)@.room_for_one(edge_bits),
        ensures
            final(self)@ == old(self)@.recorded(outcome, edge_bits),
    {
        let counter = outcome.counter();
        self.status.count = self.status.count.bump(counter);
        let current = self.count(edge_bits);
        self.worker_shares.by_edge_bits.insert(edge_bits, current.bump(counter));
        match outcome.reply() {
            None => self.send(Outbound::SubmitOk),
            Some(e) => self.send(Outbound::SubmitError(e)),
        }
    }
}

/// Where there is room for some shares there is room for one, and recording
/// one share uses up one unit of room.
pub proof fn lemma_record_keeps_room(
    w: WorkerView,
    outcome: ShareOutcome,
    edge_bits: u32,
    queue: Seq<u32>,
    n: nat,
)
    requires
        w.room_for(queue, n + 1),
    ensures
        forall|k: int| 0 <= k < queue.len() ==> w.room_for_one(#[trigger] queue[k]),
        w.recorded(outcome, edge_bits).room_for(queue, n),
{
    let after = w.recorded(outcome, edge_bits);
    assert forall|k: int| 0 <= k < queue.len() implies after.worker_shares.count(
        #[trigger] queue[k],
    ).room_for(n) by {
        assert(w.worker_shares.count(queue[k]).room_for(n + 1));
    }
}

} // verus!
