//! Promotion of workers that have logged in: from the placeholder key they
//! were registered under to the identifier they go by.

use crate::pool::{Pool, PoolView};
use crate::registry::{
    lemma_inserted, lemma_position, lemma_rekeyed, lemma_remove_keeps_unique,
    lemma_same_keys_unique, lemma_stands_somewhere, position, rekeyed, stands_at, unique_keys,
    EntryView,
};
use crate::worker::WorkerSharesView;
use vstd::prelude::*;

verus! {

/// Whether the worker of an entry goes by another identifier than the key
/// it stands under, as it does when it has just logged in.
pub open spec fn renamed(entry: EntryView) -> bool {
    entry.key != entry.worker.full_id
}

/// The registry with the per-height tallies of every renamed worker started
/// over.
pub open spec fn promoted(reg: Seq<EntryView>, height: u64, difficulty: u64) -> Seq<EntryView> {
    Seq::new(
        reg.len(),
        |i: int|
            if renamed(reg[i]) {
                EntryView { worker: reg[i].worker.reset(height, difficulty), ..reg[i] }
            } else {
                reg[i]
            },
    )
}

/// The keys of the renamed workers among the first `n` entries, in their
/// order.
pub open spec fn renamed_keys(reg: Seq<EntryView>, n: int) -> Seq<Seq<char>>
    decreases n,
{
    if n <= 0 {
        Seq::empty()
    } else if renamed(reg[n - 1]) {
        renamed_keys(reg, n - 1).push(reg[n - 1].key)
    } else {
        renamed_keys(reg, n - 1)
    }
}

/// The registry after the records under the given keys were moved, one
/// after the other, to the identifiers of their workers.
pub open spec fn rekeyed_all(reg: Seq<EntryView>, keys: Seq<Seq<char>>) -> Seq<EntryView>
    decreases keys.len(),
{
    if keys.len() == 0 {
        reg
    } else {
        rekeyed(rekeyed_all(reg, keys.drop_last()), keys.last())
    }
}

/// Moving records keeps the keys unique.
pub proof fn lemma_rekeyed_all(reg: Seq<EntryView>, keys: Seq<Seq<char>>)
    requires
        unique_keys(reg),
    ensures
        unique_keys(rekeyed_all(reg, keys)),
    decreases keys.len(),
{
    if keys.len() > 0 {
        lemma_rekeyed_all(reg, keys.drop_last());
        lemma_rekeyed(rekeyed_all(reg, keys.drop_last()), keys.last());
    }
}

/// The registry after promotion: the per-height tallies of every renamed
/// worker are started over, for the given height and difficulty; then the
/// renamed workers are moved to the identifiers they go by, in their order.
pub open spec fn promotion(reg: Seq<EntryView>, height: u64, difficulty: u64) -> Seq<EntryView> {
    rekeyed_all(promoted(reg, height, difficulty), renamed_keys(reg, reg.len() as int))
}

/// Every worker stands under the identifier it goes by.
pub open spec fn settled(reg: Seq<EntryView>) -> bool {
    forall|j: int| 0 <= j < reg.len() ==> !renamed(#[trigger] reg[j])
}

/// An entry as promotion leaves it: either an entry of the registry before
/// that was not renamed, as it was; or a renamed worker of the registry
/// before, under its identifier and with its per-height tallies started
/// over.
pub open spec fn kept_or_fresh(
    before: Seq<EntryView>,
    entry: EntryView,
    height: u64,
    difficulty: u64,
) -> bool {
    exists|i: int|
        0 <= i < before.len() && if renamed(#[trigger] before[i]) {
            entry.key == before[i].worker.full_id && entry.worker == before[i].worker.reset(
                height,
                difficulty,
            )
        } else {
            entry == before[i]
        }
}

/// An entry as moving the record under `key` leaves it: either an entry
/// under another key, as it was; or the record that was under `key`, under
/// the identifier of its worker.
pub open spec fn moved_or_same(before: Seq<EntryView>, key: Seq<char>, entry: EntryView) -> bool {
    exists|i: int|
        0 <= i < before.len() && if (#[trigger] before[i]).key == key {
            entry.key == before[i].worker.full_id && entry.worker == before[i].worker
        } else {
            entry == before[i]
        }
}

/// Moving a record leaves every entry as [`moved_or_same`] says.
pub proof fn lemma_rekeyed_entries(reg: Seq<EntryView>, key: Seq<char>)
    requires
        unique_keys(reg),
    ensures
        forall|j: int|
            0 <= j < rekeyed(reg, key).len() ==> moved_or_same(
                reg,
                key,
                #[trigger] rekeyed(reg, key)[j],
            ),
{
    lemma_stands_somewhere(reg, key);
    let i = position(reg, key);
    let after = rekeyed(reg, key);
    if i == reg.len() {
        assert forall|j: int| 0 <= j < after.len() implies moved_or_same(
            reg,
            key,
            #[trigger] after[j],
        ) by {
            assert(reg[j].key != key);
        }
    } else {
        let rest = reg.remove(i);
        let moved = EntryView { key: reg[i].worker.full_id, worker: reg[i].worker };
        lemma_stands_somewhere(rest, moved.key);
        let at = position(rest, moved.key);
        assert forall|j: int| 0 <= j < after.len() implies moved_or_same(
            reg,
            key,
            #[trigger] after[j],
        ) by {
            if j == at {
                assert(after[j] == moved);
                assert(reg[i].key == key);
            } else {
                let j0 = if j < i {
                    j
                } else {
                    j + 1
                };
                assert(after[j] == rest[j]);
                assert(rest[j] == reg[j0]);
                if j0 < i {
                    assert(reg[j0].key != reg[i].key);
                } else {
                    assert(reg[i].key != reg[j0].key);
                }
            }
        }
    }
}

/// The key of every renamed worker among the first `n` entries is among
/// their renamed keys.
pub proof fn lemma_renamed_keys_has(reg: Seq<EntryView>, n: int, i: int)
    requires
        0 <= i < n <= reg.len(),
        renamed(reg[i]),
    ensures
        renamed_keys(reg, n).contains(reg[i].key),
    decreases n,
{
    let keys = renamed_keys(reg, n);
    if i == n - 1 {
        assert(keys[keys.len() - 1] == reg[i].key);
    } else {
        lemma_renamed_keys_has(reg, n - 1, i);
        let earlier = renamed_keys(reg, n - 1);
        let m = choose|m: int| 0 <= m < earlier.len() && earlier[m] == reg[i].key;
        assert(keys[m] == reg[i].key);
    }
}

/// Whether an entry holds a worker of the registry `from`, under the key
/// that worker had there or under its identifier.
pub open spec fn came_from(from: Seq<EntryView>, entry: EntryView) -> bool {
    exists|i: int|
        0 <= i < from.len() && (#[trigger] from[i]).worker == entry.worker && (entry.key
            == from[i].key || !renamed(entry))
}

/// Whether a renamed entry still has its key among the keys from `j` on.
pub open spec fn waits(keys: Seq<Seq<char>>, j: int, entry: EntryView) -> bool {
    renamed(entry) ==> exists|m: int| j <= m < keys.len() && #[trigger] keys[m] == entry.key
}

/// After the first `j` of the keys were dealt with, every entry holds a
/// worker that was there at the start, and every renamed entry still has
/// its key ahead.
proof fn lemma_rekeyed_prefix(start: Seq<EntryView>, keys: Seq<Seq<char>>, j: int)
    requires
        unique_keys(start),
        0 <= j <= keys.len(),
        forall|i: int| 0 <= i < start.len() ==> waits(keys, 0, #[trigger] start[i]),
    ensures
        unique_keys(rekeyed_all(start, keys.take(j))),
        forall|a: int|
            0 <= a < rekeyed_all(start, keys.take(j)).len() ==> came_from(
                start,
                #[trigger] rekeyed_all(start, keys.take(j))[a],
            ) && waits(keys, j, rekeyed_all(start, keys.take(j))[a]),
    decreases j,
{
    let now = rekeyed_all(start, keys.take(j));
    if j == 0 {
        assert(keys.take(0) =~= Seq::<Seq<char>>::empty());
        assert(now == start);
    } else {
        lemma_rekeyed_prefix(start, keys, j - 1);
        let earlier = rekeyed_all(start, keys.take(j - 1));
        let key = keys[j - 1];
        assert(keys.take(j).drop_last() =~= keys.take(j - 1));
        assert(keys.take(j).last() == key);
        assert(now == rekeyed(earlier, key));
        lemma_rekeyed(earlier, key);
        lemma_rekeyed_entries(earlier, key);
        assert forall|a: int| 0 <= a < now.len() implies came_from(start, #[trigger] now[a])
            && waits(keys, j, now[a]) by {
            let e = now[a];
            assert(moved_or_same(earlier, key, e));
            let b = choose|b: int|
                0 <= b < earlier.len() && if (#[trigger] earlier[b]).key == key {
                    e.key == earlier[b].worker.full_id && e.worker == earlier[b].worker
                } else {
                    e == earlier[b]
                };
            assert(came_from(start, earlier[b]) && waits(keys, j - 1, earlier[b]));
            let i = choose|i: int|
                0 <= i < start.len() && (#[trigger] start[i]).worker == earlier[b].worker && (
                earlier[b].key == start[i].key || !renamed(earlier[b]));
            assert(start[i].worker == e.worker);
            if earlier[b].key == key {
                assert(!renamed(e));
            } else {
                if renamed(e) {
                    let m = choose|m: int| j - 1 <= m < keys.len() && #[trigger] keys[m] == e.key;
                    assert(m != j - 1);
                    assert(j <= m < keys.len() && keys[m] == e.key);
                }
            }
        }
    }
}

/// What promotion comes to: the keys stay unique; afterwards every worker
/// stands under the identifier it goes by; and every entry is either one
/// that was not renamed, untouched, or a renamed worker with its per-height
/// tallies started over for the given height and difficulty.
pub proof fn lemma_promotion(reg: Seq<EntryView>, height: u64, difficulty: u64)
    requires
        unique_keys(reg),
    ensures
        unique_keys(promotion(reg, height, difficulty)),
        settled(promotion(reg, height, difficulty)),
        forall|a: int|
            0 <= a < promotion(reg, height, difficulty).len() ==> kept_or_fresh(
                reg,
                #[trigger] promotion(reg, height, difficulty)[a],
                height,
                difficulty,
            ),
{
    let start = promoted(reg, height, difficulty);
    let keys = renamed_keys(reg, reg.len() as int);
    let after = promotion(reg, height, difficulty);
    lemma_same_keys_unique(reg, start);
    assert forall|i: int| 0 <= i < start.len() implies waits(keys, 0, #[trigger] start[i]) by {
        if renamed(start[i]) {
            lemma_renamed_keys_has(reg, reg.len() as int, i);
            let m = choose|m: int| 0 <= m < keys.len() && keys[m] == reg[i].key;
            assert(keys[m] == start[i].key);
        }
    }
    lemma_rekeyed_prefix(start, keys, keys.len() as int);
    assert(keys.take(keys.len() as int) =~= keys);
    assert forall|a: int| 0 <= a < after.len() implies !renamed(#[trigger] after[a])
        && kept_or_fresh(reg, after[a], height, difficulty) by {
        let e = after[a];
        assert(came_from(start, e) && waits(keys, keys.len() as int, e));
        let i = choose|i: int|
            0 <= i < start.len() && (#[trigger] start[i]).worker == e.worker && (e.key
                == start[i].key || !renamed(e));
        if renamed(reg[i]) {
            assert(e.worker == reg[i].worker.reset(height, difficulty));
        } else {
            assert(start[i] == reg[i]);
            assert(e.key == reg[i].key);
        }
    }
}

/// The contents of a list of keys.
pub open spec fn keys_view(keys: Seq<String>) -> Seq<Seq<char>> {
    keys.map_values(|k: String| k@)
}

impl Pool {
    /// Promotes the workers that have logged in since the last call.
    ///
    /// A worker that goes by another identifier than the key it stands under
    /// has its per-height tallies started over, for the height of the
    /// current job and the pool's difficulty. Then each such worker is moved
    /// to the key that is its identifier, in the order of the registry.
    /// Afterwards every worker stands under its identifier.
    pub fn process_worker_messages(&mut self)
        requires
            old(self).wf(),
        ensures
            final(self).wf(),
            final(self)@ == (PoolView {
                workers: promotion(
                    old(self)@.workers,
                    old(self)@.job.height,
                    old(self)@.difficulty,
                ),
                ..old(self)@
            }),
            settled(final(self)@.workers),
            forall|a: int|
                0 <= a < final(self)@.workers.len() ==> kept_or_fresh(
                    old(self)@.workers,
                    #[trigger] final(self)@.workers[a],
                    old(self)@.job.height,
                    old(self)@.difficulty,
                ),
    {
        let ghost before = self@;
        let ghost target = promoted(before.workers, before.job.height, before.difficulty);
        let mut id_changed: Vec<String> = Vec::new();
        assert(keys_view(id_changed@) =~= renamed_keys(before.workers, 0));
        let mut i: usize = 0;
        while i < self.workers.len()
            invariant
                i <= self.workers@.len(),
                self.workers@.len() == before.workers.len(),
                self@ == (PoolView { workers: self@.workers, ..before }),
                target == promoted(before.workers, before.job.height, before.difficulty),
                keys_view(id_changed@) == renamed_keys(before.workers, i as int),
                forall|j: int| 0 <= j < i ==> self.workers@[j] == target[j],
                forall|j: int| i <= j < before.workers.len() ==> self.workers@[j] == before.workers[j],
            decreases self.workers@.len() - i,
        {
            let ghost current = self.workers@;
            let ghost keys = keys_view(id_changed@);
            if *self.workers.key(i) != self.workers.worker(i).full_id {
                id_changed.push(self.workers.key(i).clone());
                assert(keys_view(id_changed@) =~= keys.push(before.workers[i as int].key));
                let worker = self.workers.worker_mut(i);
                worker.reset_worker_shares(self.job.height, self.difficulty);
            }
            assert(self.workers@ =~= current.update(i as int, target[i as int]));
            i = i + 1;
        }
        assert(self.workers@ =~= target);
        proof {
            lemma_same_keys_unique(before.workers, target);
        }
        let ghost all_keys = keys_view(id_changed@);
        let mut k: usize = 0;
        while k < id_changed.len()
            invariant
                k <= id_changed.len(),
                self.wf(),
                all_keys == keys_view(id_changed@),
                self@ == (PoolView { workers: self@.workers, ..before }),
                self.workers@ == rekeyed_all(target, all_keys.take(k as int)),
            decreases id_changed.len() - k,
        {
            self.workers.rekey(&id_changed[k]);
            assert(all_keys.take(k + 1).drop_last() =~= all_keys.take(k as int));
            assert(all_keys.take(k + 1).last() == id_changed@[k as int]@);
            k = k + 1;
        }
        assert(all_keys.take(k as int) =~= all_keys);
        proof {
            lemma_promotion(before.workers, before.job.height, before.difficulty);
        }
    }
}

/// A worker that is moved to its new identifier is found there with its
/// per-height tallies started over for the given height and difficulty.
pub proof fn lemma_promotion_resets_tallies(
    reg: Seq<EntryView>,
    i: int,
    height: u64,
    difficulty: u64,
)
    requires
        unique_keys(reg),
        0 <= i < reg.len(),
        renamed(reg[i]),
    ensures
        ({
            let after = rekeyed(promoted(reg, height, difficulty), reg[i].key);
            let at = position(after, reg[i].worker.full_id);
            &&& unique_keys(after)
            &&& 0 <= at < after.len()
            &&& after[at].key == reg[i].worker.full_id
            &&& after[at].worker == reg[i].worker.reset(height, difficulty)
            &&& after[at].worker.worker_shares == WorkerSharesView::fresh(height, difficulty)
        }),
{
    let p = promoted(reg, height, difficulty);
    lemma_same_keys_unique(reg, p);
    assert(stands_at(p, reg[i].key, i));
    lemma_position(p, reg[i].key, i);
    lemma_remove_keeps_unique(p, i);
    lemma_inserted(p.remove(i), p[i].worker.full_id, p[i].worker);
    let after = rekeyed(p, reg[i].key);
    lemma_stands_somewhere(after, reg[i].worker.full_id);
}

} // verus!
