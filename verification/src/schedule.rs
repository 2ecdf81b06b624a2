//! The order of the control loop and its pauses.
//!
//! One round of the loop has seven steps. The loop itself, with the
//! connections it reads and writes, is the caller's; what the caller asks
//! here is which step comes next and how long to wait before it.

use vstd::prelude::*;

verus! {

/// The pause after a failed attempt to reach the upstream, in milliseconds.
pub const RECONNECT_PAUSE_MS: u64 = 1000;

/// The pause while the upstream node is still syncing, in milliseconds.
pub const SYNCING_PAUSE_MS: u64 = 2000;

/// The pause between two rounds, in milliseconds.
pub const ROUND_PAUSE_MS: u64 = 1;

/// A step of the control loop.
#[derive(Clone, Copy, Debug, PartialEq, Eq, Structural)]
pub enum Step {
    /// Make sure the upstream is connected and logged in.
    Connect,
    /// Take in what the upstream sent.
    ServerMessages,
    /// Show the pool the upstream's job.
    NewJob,
    /// Take in what the workers sent, and promote those that logged in.
    WorkerMessages,
    /// Validate the submitted shares.
    Shares,
    /// Push the job to the workers that wait for one.
    Jobs,
    /// Drop the workers whose connection failed.
    Clean,
}

/// What to do after a step: wait, then take the next step.
#[derive(Clone, Copy, Debug, PartialEq, Eq, Structural)]
pub struct Move {
    pub pause_ms: u64,
    pub next: Step,
}

/// Whether `text` holds `part` as a run of consecutive characters.
pub open spec fn holds(text: Seq<char>, part: Seq<char>) -> bool {
    exists|i: int|
        0 <= i <= text.len() - part.len() && #[trigger] text.subrange(i, i + part.len()) == part
}

/// Whether an error of the upstream says that its node is still syncing.
pub open spec fn says_syncing(message: Seq<char>) -> bool {
    holds(message, "Node is syncing"@)
}

/// The move after a step. `error` is the message of the error that the step
/// ended with, if it ended with one.
///
/// A failed connection is tried again after a pause, and nothing else
/// happens in that round. An error of the upstream that says its node is
/// syncing delays the round; any other leaves it as it is. After the last
/// step comes the first, after a short pause.
pub open spec fn planned(step: Step, error: Option<Seq<char>>) -> Move {
    match step {
        Step::Connect => match error {
            Some(_) => Move { pause_ms: RECONNECT_PAUSE_MS, next: Step::Connect },
            None => Move { pause_ms: 0, next: Step::ServerMessages },
        },
        Step::ServerMessages => match error {
            Some(message) => Move {
                pause_ms: if says_syncing(message) {
                    SYNCING_PAUSE_MS
                } else {
                    0
                },
                next: Step::NewJob,
            },
            None => Move { pause_ms: 0, next: Step::NewJob },
        },
        Step::NewJob => Move { pause_ms: 0, next: Step::WorkerMessages },
        Step::WorkerMessages => Move { pause_ms: 0, next: Step::Shares },
        Step::Shares => Move { pause_ms: 0, next: Step::Jobs },
        Step::Jobs => Move { pause_ms: 0, next: Step::Clean },
        Step::Clean => Move { pause_ms: ROUND_PAUSE_MS, next: Step::Connect },
    }
}

/// Calls `str::contains` with a text as the pattern, which says whether the
/// pattern occurs in the text as a run of consecutive characters.
#[verifier::external_body]
fn contains(text: &str, part: &str) -> (r: bool)
    ensures
        r == holds(text@, part@),
{
    text.contains(part)
}

/// Whether an error of the upstream says that its node is still syncing.
pub fn is_syncing(message: &str) -> (r: bool)
    ensures
        r == says_syncing(message@),
{
    contains(message, "Node is syncing")
}

/// Decides the move after a step. `error` is the message of the error that
/// the step ended with, if it ended with one.
pub fn advance(step: Step, error: Option<&str>) -> (r: Move)
    ensures
        r == planned(
            step,
            match error {
                Some(message) => Some(message@),
                None => None,
            },
        ),
{
    match step {
        Step::Connect => match error {
            Some(_) => Move { pause_ms: RECONNECT_PAUSE_MS, next: Step::Connect },
            None => Move { pause_ms: 0, next: Step::ServerMessages },
        },
        Step::ServerMessages => match error {
            Some(message) => Move {
                pause_ms: if is_syncing(message) {
                    SYNCING_PAUSE_MS
                } else {
                    0
                },
                next: Step::NewJob,
            },
            None => Move { pause_ms: 0, next: Step::NewJob },
        },
        Step::NewJob => Move { pause_ms: 0, next: Step::WorkerMessages },
        Step::WorkerMessages => Move { pause_ms: 0, next: Step::Shares },
        Step::Shares => Move { pause_ms: 0, next: Step::Jobs },
        Step::Jobs => Move { pause_ms: 0, next: Step::Clean },
        Step::Clean => Move { pause_ms: ROUND_PAUSE_MS, next: Step::Connect },
    }
}

/// A round that meets no error takes the seven steps in their order and
/// comes back to the first.
pub proof fn lemma_round_order()
    ensures
        planned(Step::Connect, None).next == Step::ServerMessages,
        planned(Step::ServerMessages, None).next == Step::NewJob,
        planned(Step::NewJob, None).next == Step::WorkerMessages,
        planned(Step::WorkerMessages, None).next == Step::Shares,
        planned(Step::Shares, None).next == Step::Jobs,
        planned(Step::Jobs, None).next == Step::Clean,
        planned(Step::Clean, None).next == Step::Connect,
{
}

/// Only a failed connection keeps the loop from going on to the next step,
/// and every pause is bounded.
pub proof fn lemma_loop_goes_on(step: Step, error: Option<Seq<char>>)
    ensures
        planned(step, error).next == planned(step, None).next || (step == Step::Connect
            && error is Some),
        planned(step, error).pause_ms <= SYNCING_PAUSE_MS,
{
}

} // verus!
