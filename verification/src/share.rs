//! Shares and the decision that the validation pipeline takes on each.
//!
//! The pipeline has five stages, tried in order: duplicate, proof size,
//! staleness, provenance and proof of work, difficulty. The first three and
//! the job lookup are decided by [`screen_share`]; what the proof-of-work
//! check found is graded by [`grade_solution`].

use vstd::prelude::*;

verus! {

/// The smallest edge-bits value that is accepted.
pub const MIN_EDGE_BITS: u32 = 29;

/// An edge-bits value above the minimum that is nevertheless refused.
pub const REFUSED_EDGE_BITS: u32 = 30;

/// Error code of a rejected solution.
pub const CODE_INVALID_SOLUTION: i32 = -32502;

/// Error code of a stale solution.
pub const CODE_STALE_SOLUTION: i32 = -32503;

/// A candidate solution as a worker submits it.
#[derive(Debug)]
pub struct Share {
    pub job_id: u64,
    pub height: u64,
    pub edge_bits: u32,
    pub nonce: u64,
    pub pow: Vec<u64>,
    pub worker_id: u64,
}

/// The mathematical content of a [`Share`].
#[verifier::ext_equal]
pub struct ShareView {
    pub job_id: u64,
    pub height: u64,
    pub edge_bits: u32,
    pub nonce: u64,
    pub pow: Seq<u64>,
    pub worker_id: u64,
}

impl View for Share {
    type V = ShareView;

    open spec fn view(&self) -> ShareView {
        ShareView {
            job_id: self.job_id,
            height: self.height,
            edge_bits: self.edge_bits,
            nonce: self.nonce,
            pow: self.pow@,
            worker_id: self.worker_id,
        }
    }
}

impl Clone for Share {
    fn clone(&self) -> (r: Self)
        ensures
            r@ == self@,
    {
        Share {
            job_id: self.job_id,
            height: self.height,
            edge_bits: self.edge_bits,
            nonce: self.nonce,
            pow: self.pow.clone(),
            worker_id: self.worker_id,
        }
    }
}

/// The error that a worker is told when its share is rejected.
#[derive(Clone, Copy, Debug, PartialEq, Eq, Structural)]
pub enum ShareError {
    /// The share was not accepted; deliberately says no more.
    FailedValidation,
    /// The edge bits are below the minimum or are the refused value.
    InvalidSize,
    /// The share is for a height that is no longer current.
    TooLate,
    /// The solution has a difficulty below one.
    LowDifficulty,
}

impl ShareError {
    /// The numeric code sent with this error.
    pub open spec fn spec_code(self) -> i32 {
        match self {
            ShareError::TooLate => CODE_STALE_SOLUTION,
            _ => CODE_INVALID_SOLUTION,
        }
    }

    /// The text sent with this error.
    pub open spec fn spec_message(self) -> Seq<char> {
        match self {
            ShareError::FailedValidation => "Failed to validate solution"@,
            ShareError::InvalidSize => "Invalid POW size"@,
            ShareError::TooLate => "Solution submitted too late"@,
            ShareError::LowDifficulty => "Rejected low difficulty solution"@,
        }
    }

    /// The numeric code sent with this error.
    #[verifier::when_used_as_spec(spec_code)]
    pub fn code(self) -> (r: i32)
        ensures
            r == self.spec_code(),
    {
        match self {
            ShareError::TooLate => CODE_STALE_SOLUTION,
            _ => CODE_INVALID_SOLUTION,
        }
    }

    /// The text sent with this error.
    pub fn message(self) -> (r: &'static str)
        ensures
            r@ == self.spec_message(),
    {
        match self {
            ShareError::FailedValidation => "Failed to validate solution",
            ShareError::InvalidSize => "Invalid POW size",
            ShareError::TooLate => "Solution submitted too late",
            ShareError::LowDifficulty => "Rejected low difficulty solution",
        }
    }
}

/// One of the three tallies that a share ends in.
#[derive(Clone, Copy, Debug, PartialEq, Eq, Structural)]
pub enum Counter {
    Accepted,
    Rejected,
    Stale,
}

/// What the proof-of-work check found of a share.
#[derive(Clone, Copy, Debug, PartialEq, Eq, Structural)]
pub enum ProofCheck {
    /// The header could not be rebuilt, or its proof of work does not hold.
    Failed,
    /// The proof of work holds; `difficulty` is its unscaled difficulty.
    Verified { difficulty: u64 },
}

/// How the pipeline ends for one share.
#[derive(Clone, Copy, Debug, PartialEq, Eq, Structural)]
pub enum ShareOutcome {
    /// The proof vector was seen before at this height.
    Duplicate,
    /// The edge bits are not acceptable.
    InvalidSize,
    /// The share's height is not the current job's.
    Stale,
    /// No job with the share's identifier was issued at this height.
    UnknownJob,
    /// The header could not be rebuilt, or its proof of work does not hold.
    InvalidProof,
    /// The difficulty of the solution is below one.
    LowDifficulty,
    /// The difficulty of the solution is below the worker's.
    BelowTarget,
    /// The share is good and is forwarded upstream.
    Accepted,
}

impl ShareOutcome {
    /// The tally that this outcome adds to.
    pub open spec fn spec_counter(self) -> Counter {
        match self {
            ShareOutcome::Accepted => Counter::Accepted,
            ShareOutcome::Stale => Counter::Stale,
            _ => Counter::Rejected,
        }
    }

    /// The error that the worker is told, or `None` for an acknowledgment.
    pub open spec fn spec_reply(self) -> Option<ShareError> {
        match self {
            ShareOutcome::Accepted => None,
            ShareOutcome::InvalidSize => Some(ShareError::InvalidSize),
            ShareOutcome::Stale => Some(ShareError::TooLate),
            ShareOutcome::LowDifficulty => Some(ShareError::LowDifficulty),
            ShareOutcome::Duplicate
            | ShareOutcome::UnknownJob
            | ShareOutcome::InvalidProof
            | ShareOutcome::BelowTarget => Some(ShareError::FailedValidation),
        }
    }

    /// The tally that this outcome adds to.
    #[verifier::when_used_as_spec(spec_counter)]
    pub fn counter(self) -> (r: Counter)
        ensures
            r == self.spec_counter(),
    {
        match self {
            ShareOutcome::Accepted => Counter::Accepted,
            ShareOutcome::Stale => Counter::Stale,
            _ => Counter::Rejected,
        }
    }

    /// The error that the worker is told, or `None` for an acknowledgment.
    #[verifier::when_used_as_spec(spec_reply)]
    pub fn reply(self) -> (r: Option<ShareError>)
        ensures
            r == self.spec_reply(),
    {
        match self {
            ShareOutcome::Accepted => None,
            ShareOutcome::InvalidSize => Some(ShareError::InvalidSize),
            ShareOutcome::Stale => Some(ShareError::TooLate),
            ShareOutcome::LowDifficulty => Some(ShareError::LowDifficulty),
            ShareOutcome::Duplicate
            | ShareOutcome::UnknownJob
            | ShareOutcome::InvalidProof
            | ShareOutcome::BelowTarget => Some(ShareError::FailedValidation),
        }
    }
}

/// Whether a share of these edge bits passes the proof-size stage.
pub open spec fn acceptable_size(edge_bits: u32) -> bool {
    edge_bits >= MIN_EDGE_BITS && edge_bits != REFUSED_EDGE_BITS
}

/// The outcome of the stages that need no proof-of-work check, or `None`
/// where the share passes all of them.
pub open spec fn screening(
    is_duplicate: bool,
    edge_bits: u32,
    share_height: u64,
    job_height: u64,
    job_known: bool,
) -> Option<ShareOutcome> {
    if is_duplicate {
        Some(ShareOutcome::Duplicate)
    } else if !acceptable_size(edge_bits) {
        Some(ShareOutcome::InvalidSize)
    } else if share_height != job_height {
        Some(ShareOutcome::Stale)
    } else if !job_known {
        Some(ShareOutcome::UnknownJob)
    } else {
        None
    }
}

/// The outcome for a share that passed the screening, given what the
/// proof-of-work check found and the difficulty assigned to the worker.
pub open spec fn grading(check: ProofCheck, worker_difficulty: u64) -> ShareOutcome {
    match check {
        ProofCheck::Failed => ShareOutcome::InvalidProof,
        ProofCheck::Verified { difficulty } => {
            if difficulty < 1 {
                ShareOutcome::LowDifficulty
            } else if difficulty < worker_difficulty {
                ShareOutcome::BelowTarget
            } else {
                ShareOutcome::Accepted
            }
        },
    }
}

/// The outcome of the whole pipeline.
pub open spec fn share_verdict(
    is_duplicate: bool,
    edge_bits: u32,
    share_height: u64,
    job_height: u64,
    job_known: bool,
    check: ProofCheck,
    worker_difficulty: u64,
) -> ShareOutcome {
    match screening(is_duplicate, edge_bits, share_height, job_height, job_known) {
        Some(outcome) => outcome,
        None => grading(check, worker_difficulty),
    }
}

/// Runs the duplicate, proof-size and staleness stages and the job lookup.
pub fn screen_share(
    is_duplicate: bool,
    edge_bits: u32,
    share_height: u64,
    job_height: u64,
    job_known: bool,
) -> (r: Option<ShareOutcome>)
    ensures
        r == screening(is_duplicate, edge_bits, share_height, job_height, job_known),
{
    if is_duplicate {
        Some(ShareOutcome::Duplicate)
    } else if edge_bits < MIN_EDGE_BITS || edge_bits == REFUSED_EDGE_BITS {
        Some(ShareOutcome::InvalidSize)
    } else if share_height != job_height {
        Some(ShareOutcome::Stale)
    } else if !job_known {
        Some(ShareOutcome::UnknownJob)
    } else {
        None
    }
}

/// Grades a share that passed the screening.
pub fn grade_solution(check: ProofCheck, worker_difficulty: u64) -> (r: ShareOutcome)
    ensures
        r == grading(check, worker_difficulty),
{
    match check {
        ProofCheck::Failed => ShareOutcome::InvalidProof,
        ProofCheck::Verified { difficulty } => {
            if difficulty < 1 {
                ShareOutcome::LowDifficulty
            } else if difficulty < worker_difficulty {
                ShareOutcome::BelowTarget
            } else {
                ShareOutcome::Accepted
            }
        },
    }
}

/// A share of acceptable size that was not seen before and whose height is
/// not the current job's is stale, whatever its job identifier and whatever
/// the proof-of-work check would find.
pub proof fn lemma_other_height_is_stale(
    edge_bits: u32,
    share_height: u64,
    job_height: u64,
    job_known: bool,
    check: ProofCheck,
    worker_difficulty: u64,
)
    requires
        acceptable_size(edge_bits),
        share_height != job_height,
    ensures
        share_verdict(
            false,
            edge_bits,
            share_height,
            job_height,
            job_known,
            check,
            worker_difficulty,
        ) == ShareOutcome::Stale,
{
}

/// A share that reaches the difficulty stage with difficulty `difficulty` is
/// accepted if and only if that difficulty is at least one and at least the
/// worker's; otherwise it counts as rejected.
pub proof fn lemma_difficulty_gate(difficulty: u64, worker_difficulty: u64)
    ensures
        grading(ProofCheck::Verified { difficulty }, worker_difficulty) == ShareOutcome::Accepted
            <==> difficulty >= 1 && difficulty >= worker_difficulty,
        !(difficulty >= 1 && difficulty >= worker_difficulty) ==> grading(
            ProofCheck::Verified { difficulty },
            worker_difficulty,
        ).spec_counter() == Counter::Rejected,
{
}

/// A share is accepted if and only if it was not seen before, has an
/// acceptable size, is for the current height and for a job issued at it,
/// and its proof of work holds with a difficulty of at least one and at
/// least the worker's.
pub proof fn lemma_accepted_iff(
    is_duplicate: bool,
    edge_bits: u32,
    share_height: u64,
    job_height: u64,
    job_known: bool,
    check: ProofCheck,
    worker_difficulty: u64,
)
    ensures
        share_verdict(
            is_duplicate,
            edge_bits,
            share_height,
            job_height,
            job_known,
            check,
            worker_difficulty,
        ) == ShareOutcome::Accepted <==> {
            &&& !is_duplicate
            &&& acceptable_size(edge_bits)
            &&& share_height == job_height
            &&& job_known
            &&& check matches ProofCheck::Verified { difficulty }
            &&& difficulty >= 1
            &&& difficulty >= worker_difficulty
        },
{
}

/// Every outcome adds to exactly one tally, and only an accepted share is
/// acknowledged without an error.
pub proof fn lemma_outcome_is_terminal(outcome: ShareOutcome)
    ensures
        outcome.spec_counter() == Counter::Accepted <==> outcome == ShareOutcome::Accepted,
        outcome.spec_counter() == Counter::Stale <==> outcome == ShareOutcome::Stale,
        outcome.spec_reply() is None <==> outcome == ShareOutcome::Accepted,
        outcome == ShareOutcome::Stale <==> outcome.spec_reply() == Some(ShareError::TooLate),
{
}

} // verus!
