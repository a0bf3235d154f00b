//! Stamped-value storage for leaf ("input") queries: a key-to-stamped-value
//! table with point reads, revision-bumping point writes, constant-marking,
//! and an unchecked write that bypasses the revision barrier.

use crate::revision::{spec_changed_since, ChangedAt, Revision, StampedValue};
use vstd::prelude::*;

verus! {

/// A failed storage operation. Both variants are contract violations by the
/// caller; the default behaviour of a database built on this core is to abort
/// the computation when one is reported.
#[derive(Clone, Copy, Debug, PartialEq, Eq, Structural)]
pub enum InputError {
    /// The key was read before any value was set for it. Inputs have no
    /// default: they must be seeded before use.
    UnsetInput { key: u64 },
    /// The key was written after having been marked constant. A constant is a
    /// promise that the value never changes again; both the refused value and
    /// the standing one are surfaced so the violation is diagnosable.
    ConstantViolation { key: u64, old_value: u64, new_value: u64 },
}

/// Garbage-collection strategy parameter, accepted by `sweep` but unused:
/// inputs are never evicted, since the engine cannot recompute them.
#[derive(Clone, Copy, Debug, PartialEq, Eq, Structural)]
pub struct SweepStrategy {}

/// The concurrent table that holds the stamped entries, opaque to the
/// verifier. An entry is `(value, revision number, is constant)`. Readers
/// take the shared side of the reader-writer lock and never block each other;
/// writers take the exclusive side, so a reader observes each replacement as
/// one atomic step and never a torn entry.
#[verifier::external_body]
pub struct Table {
    map: parking_lot::RwLock<rustc_hash::FxHashMap<u64, (u64, u64, bool)>>,
}

/// The entries the table currently holds, by key.
pub uninterp spec fn table_entries(t: Table) -> Map<u64, (u64, u64, bool)>;

/// Relies on `parking_lot::RwLock::read` and `HashMap::get`: a shared-lock
/// lookup returns a copy of the entry stored under the key, if any.
#[verifier::external_body]
fn table_get(t: &Table, key: u64) -> (r: Option<(u64, u64, bool)>)
    ensures
        r == (if table_entries(*t).dom().contains(key) {
            Some(table_entries(*t)[key])
        } else {
            None::<(u64, u64, bool)>
        }),
{
    t.map.read().get(&key).copied()
}

/// Relies on `parking_lot::RwLock::write` and `HashMap::insert`: an
/// exclusive-lock insert replaces whatever entry the key had before.
#[verifier::external_body]
fn table_insert(t: &mut Table, key: u64, entry: (u64, u64, bool))
    ensures
        table_entries(*final(t)) == table_entries(*old(t)).insert(key, entry),
{
    t.map.write().insert(key, entry);
}

/// Relies on `parking_lot::RwLock::read` and `HashMap::keys`: the iterator
/// yields each stored key exactly once, in no promised order.
#[verifier::external_body]
fn table_keys(t: &Table) -> (r: Vec<u64>)
    ensures
        r@.to_set() == table_entries(*t).dom(),
        r@.no_duplicates(),
{
    t.map.read().keys().copied().collect()
}

/// The stamped value an entry of the table stands for.
pub open spec fn stamp_of_entry(entry: (u64, u64, bool)) -> StampedValue {
    StampedValue {
        value: entry.0,
        changed_at: ChangedAt { revision: Revision { number: entry.1 }, is_constant: entry.2 },
    }
}

/// A key present in the table and marked constant. An absent key is not
/// constant.
pub open spec fn spec_is_constant(m: Map<u64, StampedValue>, key: u64) -> bool {
    m.dom().contains(key) && m[key].changed_at.is_constant
}

/// A barrier write (`set` or `set_constant`) is permitted exactly when the
/// key is not already constant.
pub open spec fn spec_write_allowed(m: Map<u64, StampedValue>, key: u64) -> bool {
    !spec_is_constant(m, key)
}

/// The stamp a lookup observes: the stored one, or, for a key never written,
/// the implicit baseline stamp (revision zero, not constant).
pub open spec fn spec_stamp_or_absent(m: Map<u64, StampedValue>, key: u64) -> ChangedAt {
    if m.dom().contains(key) {
        m[key].changed_at
    } else {
        ChangedAt { revision: Revision { number: 0 }, is_constant: false }
    }
}

/// The storage after a barrier write: the stamped value is inserted when the
/// write is permitted, and nothing changes when the key is constant.
pub open spec fn spec_after_write(
    m: Map<u64, StampedValue>,
    key: u64,
    value: u64,
    next_revision: Revision,
    mark_constant: bool,
) -> Map<u64, StampedValue> {
    if spec_write_allowed(m, key) {
        m.insert(
            key,
            StampedValue {
                value,
                changed_at: ChangedAt { revision: next_revision, is_constant: mark_constant },
            },
        )
    } else {
        m
    }
}

/// Storage for one class of input queries: a table from key to stamped value,
/// shared by reference among readers and mutated only through the write entry
/// points below.
pub struct InputStorage {
    table: Table,
}

impl View for InputStorage {
    type V = Map<u64, StampedValue>;

    closed spec fn view(&self) -> Map<u64, StampedValue> {
        Map::new(
            |k: u64| table_entries(self.table).dom().contains(k),
            |k: u64| stamp_of_entry(table_entries(self.table)[k]),
        )
    }
}

/// Storage that holds no entries at all.
pub open spec fn empty_inputs() -> Map<u64, StampedValue> {
    Map::empty()
}

/// Relies on `parking_lot::RwLock::new` and `FxHashMap::default`: a freshly
/// built map is empty, so fresh storage holds no entries.
#[verifier::external_body]
fn new_storage() -> (s: InputStorage)
    ensures
        s@ == empty_inputs(),
{
    InputStorage {
        table: Table { map: parking_lot::RwLock::new(rustc_hash::FxHashMap::default()) },
    }
}

impl Default for InputStorage {
    /// Fresh storage holds no entries.
    fn default() -> (s: InputStorage)
        ensures
            s@ == empty_inputs(),
    {
        new_storage()
    }
}

impl InputStorage {
    /// Point read under the shared lock. A key that was never written is a
    /// contract violation ("unset input"): inputs have no default.
    pub fn read(&self, key: u64) -> (r: Result<StampedValue, InputError>)
        ensures
            self@.dom().contains(key) ==> r == Ok::<StampedValue, InputError>(self@[key]),
            !self@.dom().contains(key) ==> r == Err::<StampedValue, InputError>(
                InputError::UnsetInput { key },
            ),
    {
        match table_get(&self.table, key) {
            Some(entry) => Ok(
                StampedValue {
                    value: entry.0,
                    changed_at: ChangedAt {
                        revision: Revision { number: entry.1 },
                        is_constant: entry.2,
                    },
                },
            ),
            None => Err(InputError::UnsetInput { key }),
        }
    }

    /// True iff the value stored under the key changed strictly after
    /// `revision`. A key never written carries the baseline stamp, so the
    /// answer for it is false whatever `revision` is. Never mutates.
    pub fn maybe_changed_since(&self, key: u64, revision: Revision) -> (r: bool)
        ensures
            r == spec_changed_since(spec_stamp_or_absent(self@, key), revision),
    {
        let stamp = match table_get(&self.table, key) {
            Some(entry) => ChangedAt {
                revision: Revision { number: entry.1 },
                is_constant: entry.2,
            },
            None => ChangedAt { revision: Revision { number: 0 }, is_constant: false },
        };
        stamp.changed_since(revision)
    }

    /// True iff the key is present and marked constant.
    pub fn is_constant(&self, key: u64) -> (r: bool)
        ensures
            r == spec_is_constant(self@, key),
    {
        match table_get(&self.table, key) {
            Some(entry) => entry.2,
            None => false,
        }
    }

    /// Snapshot of the currently-set keys, each exactly once, in no promised
    /// order.
    pub fn keys(&self) -> (r: Vec<u64>)
        ensures
            r@.to_set() == self@.dom(),
            r@.no_duplicates(),
    {
        let r = table_keys(&self.table);
        proof {
            assert(self@.dom() =~= table_entries(self.table).dom());
        }
        r
    }

    /// Garbage-collection hook: a no-op for inputs, which are never evicted.
    pub fn sweep(&self, _strategy: SweepStrategy) {
    }

    fn set_common(
        &mut self,
        key: u64,
        value: u64,
        mark_constant: bool,
        next_revision: Revision,
    ) -> (r: Result<(), InputError>)
        ensures
            final(self)@ == spec_after_write(old(self)@, key, value, next_revision, mark_constant),
            r == Ok::<(), InputError>(()) <==> spec_write_allowed(old(self)@, key),
            !spec_write_allowed(old(self)@, key) ==> *final(self) == *old(self) && r == Err::<
                (),
                InputError,
            >(
                (InputError::ConstantViolation {
                    key,
                    old_value: old(self)@[key].value,
                    new_value: value,
                }),
            ),
    {
        match table_get(&self.table, key) {
            Some(entry) => {
                if entry.2 {
                    return Err(
                        InputError::ConstantViolation { key, old_value: entry.0, new_value: value },
                    );
                }
            },
            None => {},
        }
        table_insert(&mut self.table, key, (value, next_revision.number, mark_constant));
        proof {
            assert(self@ =~= old(self)@.insert(
                key,
                (StampedValue {
                    value,
                    changed_at: ChangedAt { revision: next_revision, is_constant: mark_constant },
                }),
            ));
        }
        Ok(())
    }

    /// Exclusive write, stamping the value with `next_revision`. The caller
    /// must mint `next_revision` under the runtime's write barrier
    /// (`Runtime::set` is the checked entry point), so that the new stamp's
    /// revision is the freshly minted one — and, as the barrier guarantees,
    /// no older than the key's stored stamp, so the revisions assigned to a
    /// key never decrease. Refused if the key is constant.
    pub fn set(&mut self, key: u64, value: u64, next_revision: Revision) -> (r: Result<
        (),
        InputError,
    >)
        requires
            spec_stamp_or_absent(old(self)@, key).revision.number <= next_revision.number,
        ensures
            final(self)@ == spec_after_write(old(self)@, key, value, next_revision, false),
            r == Ok::<(), InputError>(()) <==> spec_write_allowed(old(self)@, key),
            !spec_write_allowed(old(self)@, key) ==> *final(self) == *old(self) && r == Err::<
                (),
                InputError,
            >(
                (InputError::ConstantViolation {
                    key,
                    old_value: old(self)@[key].value,
                    new_value: value,
                }),
            ),
    {
        self.set_common(key, value, false, next_revision)
    }

    /// `set`, with the new stamp marked constant, permanently freezing the
    /// key from this point on.
    pub fn set_constant(&mut self, key: u64, value: u64, next_revision: Revision) -> (r: Result<
        (),
        InputError,
    >)
        requires
            spec_stamp_or_absent(old(self)@, key).revision.number <= next_revision.number,
        ensures
            final(self)@ == spec_after_write(old(self)@, key, value, next_revision, true),
            r == Ok::<(), InputError>(()) <==> spec_write_allowed(old(self)@, key),
            !spec_write_allowed(old(self)@, key) ==> *final(self) == *old(self) && r == Err::<
                (),
                InputError,
            >(
                (InputError::ConstantViolation {
                    key,
                    old_value: old(self)@[key].value,
                    new_value: value,
                }),
            ),
    {
        self.set_common(key, value, true, next_revision)
    }

    /// Escape-hatch write that bypasses both the revision barrier and the
    /// constant check: the entry is replaced unconditionally and stamped with
    /// the revision current at the call, not a freshly minted one. Intended
    /// only for bootstrapping, where no dependent computation can have
    /// observed an intermediate state. Like the barrier writes, it may not
    /// move a key's stamp backwards: the revision handed in — the current one,
    /// for a caller holding the counter — is no older than the stored stamp.
    pub fn set_unchecked(&mut self, key: u64, value: u64, current_revision: Revision)
        requires
            spec_stamp_or_absent(old(self)@, key).revision.number <= current_revision.number,
        ensures
            final(self)@ == old(self)@.insert(
                key,
                (StampedValue {
                    value,
                    changed_at: ChangedAt { revision: current_revision, is_constant: false },
                }),
            ),
    {
        table_insert(&mut self.table, key, (value, current_revision.number, false));
        proof {
            assert(self@ =~= old(self)@.insert(
                key,
                (StampedValue {
                    value,
                    changed_at: ChangedAt { revision: current_revision, is_constant: false },
                }),
            ));
        }
    }
}

/// Law: a permitted barrier write stores exactly the written value, stamped
/// at the freshly minted revision, and that stamp is strictly newer than the
/// revision current before the write.
pub proof fn lemma_set_stores_fresh_stamp(
    m: Map<u64, StampedValue>,
    rev: u64,
    key: u64,
    value: u64,
    mark_constant: bool,
)
    requires
        spec_write_allowed(m, key),
        rev < u64::MAX,
    ensures
        ({
            let m1 = spec_after_write(m, key, value, Revision { number: (rev + 1) as u64 }, mark_constant);
            &&& m1.dom().contains(key)
            &&& m1[key].value == value
            &&& m1[key].changed_at.revision.number == rev + 1
            &&& m1[key].changed_at.is_constant == mark_constant
            &&& m1[key].changed_at.revision.number > rev
        }),
{
}

/// Law: across two successive permitted barrier writes the minted revisions
/// strictly increase, and a read after the second write observes the second
/// value with the second write's stamp — the last write wins.
pub proof fn lemma_successive_sets_increase_revisions(
    m: Map<u64, StampedValue>,
    rev: u64,
    k1: u64,
    v1: u64,
    k2: u64,
    v2: u64,
)
    requires
        spec_write_allowed(m, k1),
        spec_write_allowed(
            spec_after_write(m, k1, v1, Revision { number: (rev + 1) as u64 }, false),
            k2,
        ),
        rev + 1 < u64::MAX,
    ensures
        ({
            let m1 = spec_after_write(m, k1, v1, Revision { number: (rev + 1) as u64 }, false);
            let m2 = spec_after_write(m1, k2, v2, Revision { number: (rev + 2) as u64 }, false);
            &&& m2[k2].value == v2
            &&& m2[k2].changed_at.revision.number == rev + 2
            &&& m1[k1].changed_at.revision.number < m2[k2].changed_at.revision.number
        }),
{
}

/// One barrier write after another: the storage and the counter after
/// applying `writes` in order, oldest first, each through `set`.
pub open spec fn spec_apply_sets(
    m: Map<u64, StampedValue>,
    rev: u64,
    writes: Seq<(u64, u64)>,
) -> (Map<u64, StampedValue>, u64)
    decreases writes.len(),
{
    if writes.len() == 0 || rev == u64::MAX {
        (m, rev)
    } else {
        let first = writes.first();
        let next = spec_after_write(
            m,
            first.0,
            first.1,
            Revision { number: (rev + 1) as u64 },
            false,
        );
        spec_apply_sets(next, (rev + 1) as u64, writes.drop_first())
    }
}

/// Law: over any sequence of `set` calls on storage without constants, every
/// call mints a revision (the counter ends exactly `writes.len()` higher, and
/// the same holds of every prefix, so the revisions minted by successive
/// calls strictly increase), and a read of the last call's key afterwards
/// observes the last value written, stamped at the revision that call minted.
pub proof fn lemma_set_sequences(m: Map<u64, StampedValue>, rev: u64, writes: Seq<(u64, u64)>)
    requires
        forall|k: u64| !spec_is_constant(m, k),
        rev + writes.len() <= u64::MAX,
    ensures
        spec_apply_sets(m, rev, writes).1 == rev + writes.len(),
        writes.len() > 0 ==> ({
            let after = spec_apply_sets(m, rev, writes);
            &&& after.0.dom().contains(writes.last().0)
            &&& after.0[writes.last().0].value == writes.last().1
            &&& after.0[writes.last().0].changed_at.revision.number == after.1
            &&& !after.0[writes.last().0].changed_at.is_constant
        }),
    decreases writes.len(),
{
    if writes.len() > 0 {
        let first = writes.first();
        let next = spec_after_write(
            m,
            first.0,
            first.1,
            Revision { number: (rev + 1) as u64 },
            false,
        );
        assert forall|k: u64| !spec_is_constant(next, k) by {
            if k != first.0 {
                assert(spec_is_constant(next, k) == spec_is_constant(m, k));
            }
        }
        lemma_set_sequences(next, (rev + 1) as u64, writes.drop_first());
        if writes.len() > 1 {
            assert(writes.drop_first().last() == writes.last());
        }
    }
}

/// Law: `maybe_changed_since` answers true exactly when the observed stamp's
/// revision is strictly greater than the probe, and for a key never written
/// the observed stamp is the baseline, so the answer is false for every
/// probe.
pub proof fn lemma_maybe_changed_since_exact(m: Map<u64, StampedValue>, key: u64, probe: Revision)
    ensures
        m.dom().contains(key) ==> (spec_changed_since(
            spec_stamp_or_absent(m, key),
            probe,
        ) <==> m[key].changed_at.revision.number > probe.number),
        !m.dom().contains(key) ==> !spec_changed_since(
            spec_stamp_or_absent(m, key),
            probe,
        ),
{
}

/// Law: `maybe_changed_since` never mutates, so repeated calls with the same
/// arguments and no intervening write look at equal storage states and return
/// equal results.
pub proof fn lemma_maybe_changed_since_idempotent(
    m1: Map<u64, StampedValue>,
    m2: Map<u64, StampedValue>,
    key: u64,
    probe: Revision,
)
    requires
        m1 == m2,
    ensures
        spec_changed_since(spec_stamp_or_absent(m1, key), probe)
            == spec_changed_since(spec_stamp_or_absent(m2, key), probe),
{
}

/// Law: once a key is constant, barrier writes to it are refused and change
/// nothing, and no barrier write to any key clears the mark — the key stays
/// constant. (Only the unchecked escape hatch, which bypasses the barrier by
/// design, can replace a constant entry.)
pub proof fn lemma_constant_is_permanent(
    m: Map<u64, StampedValue>,
    key: u64,
    other: u64,
    value: u64,
    next_revision: Revision,
    mark_constant: bool,
)
    requires
        spec_is_constant(m, key),
    ensures
        !spec_write_allowed(m, key),
        spec_after_write(m, key, value, next_revision, mark_constant) == m,
        spec_is_constant(spec_after_write(m, other, value, next_revision, mark_constant), key),
{
}

} // verus!
