//! The set of proof vectors seen at the current height, each with the worker
//! that submitted it first.

use vstd::prelude::*;

verus! {

/// One proof vector and the worker that submitted it first.
#[derive(Debug)]
pub struct SeenProof {
    pub pow: Vec<u64>,
    pub worker_id: u64,
}

/// The proof vectors seen at the current height.
///
/// Proof vectors are kept in the order in which they came. A vector is only
/// added while it is absent, so none occurs twice.
#[derive(Debug)]
pub struct DuplicateSet {
    seen: Vec<SeenProof>,
}

/// The map that a sequence of entries stands for; of two entries with the
/// same proof vector the later one counts.
pub open spec fn seen_map(seen: Seq<SeenProof>) -> Map<Seq<u64>, u64>
    decreases seen.len(),
{
    if seen.len() == 0 {
        Map::empty()
    } else {
        seen_map(seen.drop_last()).insert(seen.last().pow@, seen.last().worker_id)
    }
}

/// A proof vector that no entry holds is not in the map.
proof fn lemma_absent(seen: Seq<SeenProof>, pow: Seq<u64>)
    requires
        forall|j: int| 0 <= j < seen.len() ==> (#[trigger] seen[j]).pow@ != pow,
    ensures
        !seen_map(seen).contains_key(pow),
    decreases seen.len(),
{
    if seen.len() > 0 {
        lemma_absent(seen.drop_last(), pow);
    }
}

/// The last entry that holds a proof vector gives its value in the map.
proof fn lemma_present(seen: Seq<SeenProof>, pow: Seq<u64>, i: int)
    requires
        0 <= i < seen.len(),
        seen[i].pow@ == pow,
        forall|j: int| i < j < seen.len() ==> (#[trigger] seen[j]).pow@ != pow,
    ensures
        seen_map(seen).contains_key(pow),
        seen_map(seen)[pow] == seen[i].worker_id,
    decreases seen.len(),
{
    if i < seen.len() - 1 {
        lemma_present(seen.drop_last(), pow, i);
    }
}

/// Whether two vectors hold the same numbers.
pub fn same_numbers(a: &Vec<u64>, b: &Vec<u64>) -> (r: bool)
    ensures
        r == (a@ == b@),
{
    if a.len() != b.len() {
        return false;
    }
    let mut i: usize = 0;
    while i < a.len()
        invariant
            i <= a.len(),
            a.len() == b.len(),
            forall|j: int| 0 <= j < i ==> a@[j] == b@[j],
        decreases a.len() - i,
    {
        if a[i] != b[i] {
            return false;
        }
        i = i + 1;
    }
    assert(a@ =~= b@);
    true
}

impl View for DuplicateSet {
    type V = Map<Seq<u64>, u64>;

    closed spec fn view(&self) -> Map<Seq<u64>, u64> {
        seen_map(self.seen@)
    }
}

impl DuplicateSet {
    /// The empty set.
    pub fn new() -> (r: Self)
        ensures
            r@ == Map::<Seq<u64>, u64>::empty(),
    {
        DuplicateSet { seen: Vec::new() }
    }

    /// Forgets every proof vector.
    pub fn clear(&mut self)
        ensures
            final(self)@ == Map::<Seq<u64>, u64>::empty(),
    {
        self.seen.clear();
    }

    /// The worker that first submitted a proof vector, if it was seen.
    pub fn first_submitter(&self, pow: &Vec<u64>) -> (r: Option<u64>)
        ensures
            r is Some <==> self@.contains_key(pow@),
            r matches Some(worker_id) ==> self@[pow@] == worker_id,
    {
        let mut i: usize = self.seen.len();
        while i > 0
            invariant
                i <= self.seen.len(),
                forall|j: int| i <= j < self.seen.len() ==> (#[trigger] self.seen@[j]).pow@ != pow@,
            decreases i,
        {
            i = i - 1;
            if same_numbers(&self.seen[i].pow, pow) {
                proof {
                    lemma_present(self.seen@, pow@, i as int);
                }
                return Some(self.seen[i].worker_id);
            }
        }
        proof {
            lemma_absent(self.seen@, pow@);
        }
        None
    }

    /// Whether a proof vector was seen.
    pub fn contains(&self, pow: &Vec<u64>) -> (r: bool)
        ensures
            r == self@.contains_key(pow@),
    {
        self.first_submitter(pow).is_some()
    }

    /// Notes a proof vector as submitted by a worker, unless it was seen
    /// before. Returns whether it was seen before.
    pub fn observe(&mut self, pow: &Vec<u64>, worker_id: u64) -> (seen_before: bool)
        ensures
            seen_before == old(self)@.contains_key(pow@),
            final(self)@ == observed(old(self)@, pow@, worker_id),
    {
        if self.contains(pow) {
            true
        } else {
            self.seen.push(SeenProof { pow: pow.clone(), worker_id });
            assert(self.seen@.drop_last() =~= old(self).seen@);
            false
        }
    }

    /// Whether no proof vector was seen.
    pub fn is_empty(&self) -> (r: bool)
        ensures
            r <==> self@ == Map::<Seq<u64>, u64>::empty(),
    {
        proof {
            if self.seen.len() > 0 {
                assert(self@.contains_key(self.seen@.last().pow@));
            }
        }
        self.seen.len() == 0
    }
}

/// The set after a proof vector was submitted by a worker: unchanged where
/// the vector was seen before, else with the vector added.
pub open spec fn observed(seen: Map<Seq<u64>, u64>, pow: Seq<u64>, worker_id: u64) -> Map<
    Seq<u64>,
    u64,
> {
    if seen.contains_key(pow) {
        seen
    } else {
        seen.insert(pow, worker_id)
    }
}

/// Once a proof vector was submitted it counts as seen, and a second
/// submission, by whatever worker, changes nothing.
pub proof fn lemma_second_submission_is_duplicate(
    seen: Map<Seq<u64>, u64>,
    pow: Seq<u64>,
    first: u64,
    second: u64,
)
    ensures
        observed(seen, pow, first).contains_key(pow),
        observed(observed(seen, pow, first), pow, second) == observed(seen, pow, first),
        !seen.contains_key(pow) ==> observed(seen, pow, first)[pow] == first,
{
}

} // verus!
