//! Job templates and the packing of a job's height into its identifier.

use vstd::arithmetic::div_mod::{lemma_mod_multiples_vanish, lemma_small_mod};
use vstd::prelude::*;

verus! {

/// The factor by which a job's height is shifted in front of the identifier
/// that the upstream gave it.
pub const JOB_ID_FACTOR: u64 = 1000;

/// The identifier under which a job is handed to workers: the height,
/// shifted by [`JOB_ID_FACTOR`], plus the upstream's own identifier.
pub open spec fn derived_job_id(height: int, upstream_id: int) -> int {
    height * JOB_ID_FACTOR + upstream_id
}

/// The upstream's identifier as it is read back from a derived one: the
/// remainder by the height. At height zero nothing was put in front, and the
/// identifier is returned as it is.
pub open spec fn recovered_job_id(job_id: int, height: int) -> int {
    if height == 0 {
        job_id
    } else {
        job_id % height
    }
}

/// A unit of work: one version of the header that workers are to solve.
#[derive(Debug)]
pub struct JobTemplate {
    pub job_id: u64,
    pub height: u64,
    pub pre_pow: String,
    pub difficulty: u64,
}

/// The mathematical content of a [`JobTemplate`].
#[verifier::ext_equal]
pub struct JobView {
    pub job_id: u64,
    pub height: u64,
    pub pre_pow: Seq<char>,
    pub difficulty: u64,
}

impl View for JobTemplate {
    type V = JobView;

    open spec fn view(&self) -> JobView {
        JobView {
            job_id: self.job_id,
            height: self.height,
            pre_pow: self.pre_pow@,
            difficulty: self.difficulty,
        }
    }
}

impl JobView {
    /// The template that stands for "no job yet".
    pub open spec fn unset() -> JobView {
        JobView { job_id: 0, height: 0, pre_pow: Seq::empty(), difficulty: 0 }
    }

    /// Whether the derived identifier of this template fits the machine word.
    pub open spec fn id_fits(self) -> bool {
        derived_job_id(self.height as int, self.job_id as int) <= u64::MAX
    }

    /// This template as it is issued: under its derived identifier.
    pub open spec fn issued(self) -> JobView {
        JobView { job_id: derived_job_id(self.height as int, self.job_id as int) as u64, ..self }
    }

    /// This template as one worker receives it: with that worker's difficulty.
    pub open spec fn for_difficulty(self, difficulty: u64) -> JobView {
        JobView { difficulty, ..self }
    }
}

impl Clone for JobTemplate {
    fn clone(&self) -> (r: Self)
        ensures
            r@ == self@,
    {
        JobTemplate {
            job_id: self.job_id,
            height: self.height,
            pre_pow: self.pre_pow.clone(),
            difficulty: self.difficulty,
        }
    }
}

impl JobTemplate {
    /// The template that stands for "no job yet".
    pub fn new() -> (r: Self)
        ensures
            r@ == JobView::unset(),
    {
        JobTemplate { job_id: 0, height: 0, pre_pow: String::new(), difficulty: 0 }
    }

    /// Whether the derived identifier of this template fits the machine word.
    pub fn id_fits(&self) -> (r: bool)
        ensures
            r == self@.id_fits(),
    {
        derive_job_id(self.height, self.job_id).is_some()
    }
}

/// Computes the identifier under which a job is issued, or `None` where it
/// does not fit the machine word.
pub fn derive_job_id(height: u64, upstream_id: u64) -> (r: Option<u64>)
    ensures
        match r {
            Some(id) => id == derived_job_id(height as int, upstream_id as int),
            None => derived_job_id(height as int, upstream_id as int) > u64::MAX,
        },
{
    match height.checked_mul(JOB_ID_FACTOR) {
        Some(shifted) => shifted.checked_add(upstream_id),
        None => None,
    }
}

/// Reads the upstream's identifier back from a derived one.
pub fn upstream_job_id(job_id: u64, height: u64) -> (r: u64)
    ensures
        r == recovered_job_id(job_id as int, height as int),
{
    if height == 0 {
        job_id
    } else {
        job_id % height
    }
}

/// Deriving an identifier and reading it back gives the upstream's
/// identifier again, as long as that identifier is below the height.
pub proof fn lemma_job_id_round_trip(height: nat, upstream_id: nat)
    requires
        upstream_id < height,
    ensures
        recovered_job_id(derived_job_id(height as int, upstream_id as int), height as int)
            == upstream_id,
{
    let h = height as int;
    let u = upstream_id as int;
    lemma_mod_multiples_vanish(JOB_ID_FACTOR as int, u, h);
    lemma_small_mod(upstream_id, height);
    assert(h * (JOB_ID_FACTOR as int) + u == derived_job_id(h, u));
}

/// Where the upstream's identifier is not below the height, reading it back
/// gives its remainder by the height, not the identifier itself.
pub proof fn lemma_job_id_wraps(height: nat, upstream_id: nat)
    requires
        0 < height <= upstream_id,
    ensures
        recovered_job_id(derived_job_id(height as int, upstream_id as int), height as int)
            == upstream_id % height,
        recovered_job_id(derived_job_id(height as int, upstream_id as int), height as int)
            != upstream_id,
{
    let h = height as int;
    let u = upstream_id as int;
    lemma_mod_multiples_vanish(JOB_ID_FACTOR as int, u, h);
    assert(h * (JOB_ID_FACTOR as int) + u == derived_job_id(h, u));
    assert(u % h < h) by (nonlinear_arith)
        requires
            0 < h,
    ;
}

} // verus!
