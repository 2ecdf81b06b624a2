//! The registry of connected workers: worker records under unique keys, in
//! the order in which they were registered.

use crate::worker::{Worker, WorkerView};
use vstd::prelude::*;

verus! {

/// A worker record under its key.
#[derive(Debug)]
pub struct Entry {
    pub key: String,
    pub worker: Worker,
}

/// The mathematical content of an [`Entry`].
#[verifier::ext_equal]
pub struct EntryView {
    pub key: Seq<char>,
    pub worker: WorkerView,
}

impl View for Entry {
    type V = EntryView;

    open spec fn view(&self) -> EntryView {
        EntryView { key: self.key@, worker: self.worker@ }
    }
}

/// The registry of connected workers.
///
/// The records are reached by index, in the order in which they were
/// registered, or by key. Keys are only set by the registry itself, which
/// keeps them unique.
#[derive(Debug)]
pub struct Registry {
    entries: Vec<Entry>,
}

/// The contents of a sequence of entries.
pub open spec fn entries_view(entries: Seq<Entry>) -> Seq<EntryView> {
    entries.map_values(|e: Entry| e@)
}

impl View for Registry {
    type V = Seq<EntryView>;

    closed spec fn view(&self) -> Seq<EntryView> {
        entries_view(self.entries@)
    }
}

/// No key occurs twice.
pub open spec fn unique_keys(reg: Seq<EntryView>) -> bool {
    forall|i: int, j: int|
        0 <= i < j < reg.len() ==> (#[trigger] reg[i]).key != (#[trigger] reg[j]).key
}

/// Two registries have the same keys in the same places.
pub open spec fn same_keys(before: Seq<EntryView>, after: Seq<EntryView>) -> bool {
    &&& before.len() == after.len()
    &&& forall|i: int| 0 <= i < before.len() ==> (#[trigger] after[i]).key == before[i].key
}

/// A registry that has the keys of one with unique keys, in the same places,
/// has unique keys too.
pub proof fn lemma_same_keys_unique(before: Seq<EntryView>, after: Seq<EntryView>)
    requires
        unique_keys(before),
        same_keys(before, after),
    ensures
        unique_keys(after),
{
    assert forall|i: int, j: int| 0 <= i < j < after.len() implies (#[trigger] after[i]).key != (
    #[trigger] after[j]).key by {
        assert(before[i].key != before[j].key);
    }
}

/// No entry has the given key.
pub open spec fn absent(reg: Seq<EntryView>, key: Seq<char>) -> bool {
    forall|j: int| 0 <= j < reg.len() ==> (#[trigger] reg[j]).key != key
}

/// `i` is where the given key stands: the index of its entry, or the length
/// of the registry where it has none.
pub open spec fn stands_at(reg: Seq<EntryView>, key: Seq<char>, i: int) -> bool {
    if i == reg.len() {
        absent(reg, key)
    } else {
        0 <= i < reg.len() && reg[i].key == key
    }
}

/// Where the given key stands.
pub open spec fn position(reg: Seq<EntryView>, key: Seq<char>) -> int {
    choose|i: int| stands_at(reg, key, i)
}

/// With unique keys a key stands at one place only.
pub proof fn lemma_position(reg: Seq<EntryView>, key: Seq<char>, i: int)
    requires
        unique_keys(reg),
        stands_at(reg, key, i),
    ensures
        position(reg, key) == i,
{
    let p = position(reg, key);
    assert(stands_at(reg, key, p));
    if p != i {
        if p == reg.len() {
            assert(reg[i].key == key);
        } else if i == reg.len() {
            assert(reg[p].key == key);
        } else if p < i {
            assert(reg[p].key != reg[i].key);
        } else {
            assert(reg[i].key != reg[p].key);
        }
    }
}

/// The registry after a record was put under a key: in the place of the
/// record that had the key, or at the end.
pub open spec fn inserted(reg: Seq<EntryView>, key: Seq<char>, worker: WorkerView) -> Seq<
    EntryView,
> {
    let i = position(reg, key);
    if i == reg.len() {
        reg.push(EntryView { key, worker })
    } else {
        reg.update(i, EntryView { key, worker })
    }
}

/// The registry without the record under a key.
pub open spec fn removed(reg: Seq<EntryView>, key: Seq<char>) -> Seq<EntryView> {
    let i = position(reg, key);
    if i == reg.len() {
        reg
    } else {
        reg.remove(i)
    }
}

/// The registry after the record under `old_key` was moved to the key that
/// is its worker's identifier: taken out, then put in again.
pub open spec fn rekeyed(reg: Seq<EntryView>, old_key: Seq<char>) -> Seq<EntryView> {
    let i = position(reg, old_key);
    if i == reg.len() {
        reg
    } else {
        inserted(reg.remove(i), reg[i].worker.full_id, reg[i].worker)
    }
}

/// The first `n` entries without those whose worker failed.
pub open spec fn healthy(reg: Seq<EntryView>, n: int) -> Seq<EntryView>
    decreases n,
{
    if n <= 0 {
        Seq::empty()
    } else if reg[n - 1].worker.error {
        healthy(reg, n - 1)
    } else {
        healthy(reg, n - 1).push(reg[n - 1])
    }
}

/// Among the first `n` entries, those that are left are exactly those whose
/// worker did not fail.
pub proof fn lemma_healthy(reg: Seq<EntryView>, n: int)
    requires
        0 <= n <= reg.len(),
    ensures
        forall|j: int|
            0 <= j < healthy(reg, n).len() ==> !(#[trigger] healthy(reg, n)[j]).worker.error
                && reg.take(n).contains(healthy(reg, n)[j]),
        forall|i: int|
            0 <= i < n && !(#[trigger] reg[i]).worker.error ==> healthy(reg, n).contains(reg[i]),
        healthy(reg, n).len() <= n,
    decreases n,
{
    if n > 0 {
        lemma_healthy(reg, n - 1);
        let earlier = healthy(reg, n - 1);
        let now = healthy(reg, n);
        let shorter = reg.take(n - 1);
        let longer = reg.take(n);
        assert forall|j: int| 0 <= j < now.len() implies !(#[trigger] now[j]).worker.error
            && longer.contains(now[j]) by {
            if j < earlier.len() {
                assert(now[j] == earlier[j]);
                assert(shorter.contains(earlier[j]));
                let i = choose|i: int| 0 <= i < shorter.len() && shorter[i] == earlier[j];
                assert(longer[i] == now[j]);
            } else {
                assert(longer[n - 1] == now[j]);
            }
        }
        assert forall|i: int| 0 <= i < n && !(#[trigger] reg[i]).worker.error implies now.contains(
            reg[i],
        ) by {
            if i < n - 1 {
                let j = choose|j: int| 0 <= j < earlier.len() && earlier[j] == reg[i];
                assert(now[j] == reg[i]);
            } else {
                assert(now[now.len() - 1] == reg[i]);
            }
        }
    }
}

/// Putting a record in keeps the keys unique, and the record is then found
/// under its key.
pub proof fn lemma_inserted(reg: Seq<EntryView>, key: Seq<char>, worker: WorkerView)
    requires
        unique_keys(reg),
    ensures
        unique_keys(inserted(reg, key, worker)),
        0 <= position(inserted(reg, key, worker), key) < inserted(reg, key, worker).len(),
        inserted(reg, key, worker)[position(inserted(reg, key, worker), key)].worker == worker,
{
    let i = position(reg, key);
    let after = inserted(reg, key, worker);
    lemma_stands_somewhere(reg, key);
    if i == reg.len() {
        assert forall|a: int, b: int| 0 <= a < b < after.len() implies (#[trigger] after[a]).key
            != (#[trigger] after[b]).key by {
            if b == reg.len() {
                assert(reg[a].key != key);
            } else {
                assert(reg[a].key != reg[b].key);
            }
        }
        assert(stands_at(after, key, i));
    } else {
        assert forall|a: int, b: int| 0 <= a < b < after.len() implies (#[trigger] after[a]).key
            != (#[trigger] after[b]).key by {
            assert(reg[a].key != reg[b].key);
        }
        assert(stands_at(after, key, i));
    }
    lemma_position(after, key, i);
}

/// Every key stands somewhere.
pub proof fn lemma_stands_somewhere(reg: Seq<EntryView>, key: Seq<char>)
    ensures
        stands_at(reg, key, position(reg, key)),
        0 <= position(reg, key) <= reg.len(),
{
    if absent(reg, key) {
        assert(stands_at(reg, key, reg.len() as int));
    } else {
        let j = choose|j: int| 0 <= j < reg.len() && (#[trigger] reg[j]).key == key;
        assert(stands_at(reg, key, j));
    }
}

/// Taking an entry out keeps the keys unique.
pub proof fn lemma_remove_keeps_unique(reg: Seq<EntryView>, i: int)
    requires
        unique_keys(reg),
        0 <= i < reg.len(),
    ensures
        unique_keys(reg.remove(i)),
        absent(reg.remove(i), reg[i].key),
{
    let after = reg.remove(i);
    assert forall|a: int, b: int| 0 <= a < b < after.len() implies (#[trigger] after[a]).key != (
    #[trigger] after[b]).key by {
        let a0 = if a < i {
            a
        } else {
            a + 1
        };
        let b0 = if b < i {
            b
        } else {
            b + 1
        };
        assert(reg[a0].key != reg[b0].key);
    }
    assert forall|j: int| 0 <= j < after.len() implies (#[trigger] after[j]).key != reg[i].key by {
        let j0 = if j < i {
            j
        } else {
            j + 1
        };
        if j0 < i {
            assert(reg[j0].key != reg[i].key);
        } else {
            assert(reg[i].key != reg[j0].key);
        }
    }
}

/// Moving a record to its worker's identifier keeps the keys unique.
pub proof fn lemma_rekeyed(reg: Seq<EntryView>, old_key: Seq<char>)
    requires
        unique_keys(reg),
    ensures
        unique_keys(rekeyed(reg, old_key)),
{
    lemma_stands_somewhere(reg, old_key);
    let i = position(reg, old_key);
    if i < reg.len() {
        lemma_remove_keeps_unique(reg, i);
        lemma_inserted(reg.remove(i), reg[i].worker.full_id, reg[i].worker);
    }
}

impl Registry {
    /// No key occurs twice.
    pub open spec fn wf(&self) -> bool {
        unique_keys(self@)
    }

    /// The empty registry.
    pub fn new() -> (r: Registry)
        ensures
            r@ == Seq::<EntryView>::empty(),
            r.wf(),
    {
        let r = Registry { entries: Vec::new() };
        assert(r@ =~= Seq::<EntryView>::empty());
        r
    }

    /// The number of records.
    pub fn len(&self) -> (r: usize)
        ensures
            r == self@.len(),
    {
        self.entries.len()
    }

    /// The key of the record at `i`.
    pub fn key(&self, i: usize) -> (r: &String)
        requires
            i < self@.len(),
        ensures
            r@ == self@[i as int].key,
    {
        &self.entries[i].key
    }

    /// The record at `i`.
    pub fn worker(&self, i: usize) -> (r: &Worker)
        requires
            i < self@.len(),
        ensures
            r@ == self@[i as int].worker,
    {
        &self.entries[i].worker
    }

    /// The record at `i`, to be changed. Its key stays.
    pub fn worker_mut(&mut self, i: usize) -> (r: &mut Worker)
        requires
            i < old(self)@.len(),
        ensures
            r@ == old(self)@[i as int].worker,
            final(self)@ == old(self)@.update(
                i as int,
                EntryView { worker: final(r)@, ..old(self)@[i as int] },
            ),
            old(self).wf() ==> final(self).wf(),
    {
        proof {
            // whatever the caller makes of the record, the keys stay
            let before = self@;
            assert forall|after: Seq<EntryView>| unique_keys(before) && same_keys(before, after)
                implies unique_keys(after) by {
                lemma_same_keys_unique(before, after);
            }
        }
        &mut self.entries[i].worker
    }

    /// Where the given key stands: the index of its record, or the number of
    /// records where it has none.
    pub fn find(&self, key: &String) -> (r: usize)
        requires
            self.wf(),
        ensures
            r == position(self@, key@),
            stands_at(self@, key@, r as int),
    {
        let mut i: usize = 0;
        while i < self.entries.len()
            invariant
                i <= self.entries.len(),
                self.wf(),
                forall|j: int| 0 <= j < i ==> (#[trigger] self@[j]).key != key@,
            decreases self.entries.len() - i,
        {
            if self.entries[i].key == *key {
                proof {
                    lemma_position(self@, key@, i as int);
                }
                return i;
            }
            i = i + 1;
        }
        proof {
            lemma_position(self@, key@, i as int);
        }
        i
    }

    /// Whether a record stands under the given key.
    pub fn contains_key(&self, key: &String) -> (r: bool)
        requires
            self.wf(),
        ensures
            r == !absent(self@, key@),
    {
        let i = self.find(key);
        i < self.entries.len()
    }

    /// Puts a record under a key. A record that had the key is replaced and
    /// handed back.
    pub fn insert(&mut self, key: String, worker: Worker) -> (replaced: Option<Worker>)
        requires
            old(self).wf(),
        ensures
            final(self).wf(),
            final(self)@ == inserted(old(self)@, key@, worker@),
            replaced is Some <==> !absent(old(self)@, key@),
            replaced matches Some(w) ==> w@ == old(self)@[position(old(self)@, key@)].worker,
    {
        proof {
            lemma_inserted(self@, key@, worker@);
        }
        let i = self.find(&key);
        if i < self.entries.len() {
            let mut entry = Entry { key, worker };
            std::mem::swap(&mut self.entries[i], &mut entry);
            assert(self@ =~= inserted(old(self)@, key@, worker@));
            Some(entry.worker)
        } else {
            self.entries.push(Entry { key, worker });
            assert(self@ =~= inserted(old(self)@, key@, worker@));
            None
        }
    }

    /// Takes the record under a key out of the registry.
    pub fn remove(&mut self, key: &String) -> (taken: Option<Worker>)
        requires
            old(self).wf(),
        ensures
            final(self).wf(),
            final(self)@ == removed(old(self)@, key@),
            taken is Some <==> !absent(old(self)@, key@),
            taken matches Some(w) ==> w@ == old(self)@[position(old(self)@, key@)].worker,
    {
        let i = self.find(key);
        if i < self.entries.len() {
            proof {
                lemma_remove_keeps_unique(self@, i as int);
            }
            let entry = self.entries.remove(i);
            assert(self@ =~= removed(old(self)@, key@));
            Some(entry.worker)
        } else {
            None
        }
    }

    /// Moves the record under `old_key` to the key that is its worker's
    /// identifier: takes it out, then puts it in again. A record that had
    /// the new key is dropped.
    pub fn rekey(&mut self, old_key: &String)
        requires
            old(self).wf(),
        ensures
            final(self).wf(),
            final(self)@ == rekeyed(old(self)@, old_key@),
    {
        proof {
            lemma_stands_somewhere(self@, old_key@);
        }
        match self.remove(old_key) {
            None => {},
            Some(worker) => {
                let new_key = worker.full_id();
                let _ = self.insert(new_key, worker);
            },
        }
    }

    /// Takes out every record whose worker failed. The others keep their
    /// order. Returns how many are left.
    pub fn remove_errored(&mut self) -> (left: usize)
        requires
            old(self).wf(),
        ensures
            final(self).wf(),
            final(self)@ == healthy(old(self)@, old(self)@.len() as int),
            left == final(self)@.len(),
            left <= old(self)@.len(),
    {
        let ghost before = self@;
        proof {
            lemma_healthy(before, before.len() as int);
        }
        let mut i: usize = 0;
        let ghost mut done: int = 0;
        while i < self.entries.len()
            invariant
                i <= self.entries.len(),
                0 <= done <= before.len(),
                self.entries.len() - i == before.len() - done,
                unique_keys(self@),
                self@.take(i as int) == healthy(before, done),
                self@.skip(i as int) == before.skip(done),
            decreases self.entries.len() - i,
        {
            let ghost current = self@;
            let ghost rest = current.skip(i as int);
            assert(current[i as int] == rest[0]);
            assert(before[done] == before.skip(done)[0]);
            assert forall|k: int| 0 <= k < rest.len() - 1 implies current[i + k + 1] == (
            #[trigger] before.skip(done + 1)[k]) by {
                assert(current[i + k + 1] == rest[k + 1]);
                assert(before.skip(done)[k + 1] == before[done + k + 1]);
            }
            if self.entries[i].worker.error() {
                proof {
                    lemma_remove_keeps_unique(current, i as int);
                }
                let _ = self.entries.remove(i);
                assert(self@ =~= current.remove(i as int));
                assert(self@.take(i as int) =~= current.take(i as int));
                assert(self@.skip(i as int) =~= before.skip(done + 1));
            } else {
                assert(self@.take(i + 1) =~= current.take(i as int).push(current[i as int]));
                assert(self@.skip(i + 1) =~= before.skip(done + 1));
                i = i + 1;
            }
            proof {
                done = done + 1;
            }
        }
        assert(self@.take(i as int) =~= self@);
        self.entries.len()
    }
}

} // verus!
