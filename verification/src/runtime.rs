//! The runtime: owner of the storage handle and the authoritative revision
//! counter, and keeper of the per-execution-context call stack used for cycle
//! detection.

use crate::input::{spec_write_allowed, InputError, InputStorage};
use crate::revision::{ChangedAt, Revision, StampedValue};
use vstd::prelude::*;

verus! {

/// A query chain re-entered a descriptor already being evaluated on the same
/// call chain. `chain` runs from the most recent occurrence of the repeated
/// descriptor to the top of the stack: the queries that participate in the
/// cycle.
#[derive(Debug)]
pub struct CycleError {
    pub chain: Vec<u64>,
}

/// The part of the execution stack that participates in a cycle on
/// `descriptor`: from the most recent occurrence of `descriptor` to the top.
pub open spec fn spec_cycle_chain(stack: Seq<u64>, descriptor: u64) -> Seq<u64> {
    stack.subrange(stack.index_of_last(descriptor).unwrap(), stack.len() as int)
}

/// One runtime handle: the storage group, the revision counter that the write
/// barrier advances, the execution stack of the queries currently being
/// evaluated on this logical execution context, and the record of the
/// dependency reads those queries reported.
pub struct Runtime {
    storage: InputStorage,
    revision: u64,
    execution_stack: Vec<u64>,
    query_reads: Vec<(u64, ChangedAt)>,
}

impl Runtime {
    /// The stored inputs, by key.
    pub closed spec fn spec_inputs(&self) -> Map<u64, StampedValue> {
        self.storage@
    }

    /// The revision counter's current value.
    pub closed spec fn spec_revision(&self) -> u64 {
        self.revision
    }

    /// The descriptors of the queries currently on the call chain, bottom
    /// first.
    pub closed spec fn spec_stack(&self) -> Seq<u64> {
        self.execution_stack@
    }

    /// The dependency reads reported on this execution context so far, oldest
    /// first: the descriptor of the query that was read, with the stamp it
    /// carried at the read.
    pub closed spec fn spec_query_reads(&self) -> Seq<(u64, ChangedAt)> {
        self.query_reads@
    }

    /// Well-formedness: no stored stamp is newer than the counter. `default`
    /// establishes it and every operation preserves it; the barrier writes
    /// rely on it to keep the revisions assigned to each key non-decreasing.
    pub open spec fn wf(&self) -> bool {
        forall|k: u64| #[trigger]
            self.spec_inputs().dom().contains(k)
                ==> self.spec_inputs()[k].changed_at.revision.number <= self.spec_revision()
    }

    /// The shared storage handle.
    pub fn storage(&self) -> (r: &InputStorage)
        ensures
            r@ == self.spec_inputs(),
    {
        &self.storage
    }

    /// Read-only snapshot of the revision counter.
    pub fn current_revision(&self) -> (r: Revision)
        ensures
            r.number == self.spec_revision(),
    {
        Revision { number: self.revision }
    }

    /// The write barrier: advances the counter exactly once and returns the
    /// freshly minted revision. The storage mutation belonging to the same
    /// logical edit happens under the same exclusive borrow of the runtime,
    /// so value-write and revision-bump appear as one step to every later
    /// observer.
    pub fn increment_revision(&mut self) -> (r: Revision)
        requires
            old(self).spec_revision() < u64::MAX,
        ensures
            final(self).spec_revision() == old(self).spec_revision() + 1,
            r.number == final(self).spec_revision(),
            final(self).spec_inputs() == old(self).spec_inputs(),
            final(self).spec_stack() == old(self).spec_stack(),
            final(self).spec_query_reads() == old(self).spec_query_reads(),
    {
        self.revision = self.revision + 1;
        Revision { number: self.revision }
    }

    /// Point write under the write barrier: mints a new revision and stores
    /// the value stamped with it. Refused — with the counter untouched — if
    /// the key was marked constant.
    pub fn set(&mut self, key: u64, value: u64) -> (r: Result<(), InputError>)
        requires
            old(self).spec_revision() < u64::MAX,
            old(self).wf(),
        ensures
            final(self).wf(),
            spec_write_allowed(old(self).spec_inputs(), key) ==> r == Ok::<(), InputError>(())
                && final(self).spec_revision() == old(self).spec_revision() + 1
                && final(self).spec_inputs() == old(self).spec_inputs().insert(
                key,
                (StampedValue {
                    value,
                    changed_at: ChangedAt {
                        revision: (Revision { number: (old(self).spec_revision() + 1) as u64 }),
                        is_constant: false,
                    },
                }),
            ) && final(self).spec_stack() == old(self).spec_stack()
                && final(self).spec_query_reads() == old(self).spec_query_reads(),
            !spec_write_allowed(old(self).spec_inputs(), key) ==> *final(self) == *old(self)
                && r == Err::<(), InputError>(
                (InputError::ConstantViolation {
                    key,
                    old_value: old(self).spec_inputs()[key].value,
                    new_value: value,
                }),
            ),
    {
        self.set_common(key, value, false)
    }

    /// `set`, with the new stamp marked constant: the key is frozen for the
    /// remaining lifetime of this runtime's storage group.
    pub fn set_constant(&mut self, key: u64, value: u64) -> (r: Result<(), InputError>)
        requires
            old(self).spec_revision() < u64::MAX,
            old(self).wf(),
        ensures
            final(self).wf(),
            spec_write_allowed(old(self).spec_inputs(), key) ==> r == Ok::<(), InputError>(())
                && final(self).spec_revision() == old(self).spec_revision() + 1
                && final(self).spec_inputs() == old(self).spec_inputs().insert(
                key,
                (StampedValue {
                    value,
                    changed_at: ChangedAt {
                        revision: (Revision { number: (old(self).spec_revision() + 1) as u64 }),
                        is_constant: true,
                    },
                }),
            ) && final(self).spec_stack() == old(self).spec_stack()
                && final(self).spec_query_reads() == old(self).spec_query_reads(),
            !spec_write_allowed(old(self).spec_inputs(), key) ==> *final(self) == *old(self)
                && r == Err::<(), InputError>(
                (InputError::ConstantViolation {
                    key,
                    old_value: old(self).spec_inputs()[key].value,
                    new_value: value,
                }),
            ),
    {
        self.set_common(key, value, true)
    }

    fn set_common(&mut self, key: u64, value: u64, mark_constant: bool) -> (r: Result<
        (),
        InputError,
    >)
        requires
            old(self).spec_revision() < u64::MAX,
            old(self).wf(),
        ensures
            final(self).wf(),
            spec_write_allowed(old(self).spec_inputs(), key) ==> r == Ok::<(), InputError>(())
                && final(self).spec_revision() == old(self).spec_revision() + 1
                && final(self).spec_inputs() == old(self).spec_inputs().insert(
                key,
                (StampedValue {
                    value,
                    changed_at: ChangedAt {
                        revision: (Revision { number: (old(self).spec_revision() + 1) as u64 }),
                        is_constant: mark_constant,
                    },
                }),
            ) && final(self).spec_stack() == old(self).spec_stack()
                && final(self).spec_query_reads() == old(self).spec_query_reads(),
            !spec_write_allowed(old(self).spec_inputs(), key) ==> *final(self) == *old(self)
                && r == Err::<(), InputError>(
                (InputError::ConstantViolation {
                    key,
                    old_value: old(self).spec_inputs()[key].value,
                    new_value: value,
                }),
            ),
    {
        let next = Revision { number: self.revision + 1 };
        proof {
            if self.spec_inputs().dom().contains(key) {
                assert(self.spec_inputs()[key].changed_at.revision.number
                    <= self.spec_revision());
            }
        }
        let result = if mark_constant {
            self.storage.set_constant(key, value, next)
        } else {
            self.storage.set(key, value, next)
        };
        match result {
            Ok(()) => {
                // Commit the counter only once the storage mutation went
                // through: a refused write mints no revision.
                let _minted = self.increment_revision();
                proof {
                    assert forall|k: u64| #[trigger]
                        self.spec_inputs().dom().contains(k)
                            implies self.spec_inputs()[k].changed_at.revision.number
                            <= self.spec_revision() by {
                        if k != key {
                            assert(old(self).spec_inputs().dom().contains(k));
                        }
                    }
                }
                Ok(())
            },
            Err(e) => Err(e),
        }
    }

    /// Escape-hatch write: bypasses the write barrier, leaves the counter
    /// untouched, and stamps the value with the revision current at the call.
    pub fn set_unchecked(&mut self, key: u64, value: u64)
        requires
            old(self).wf(),
        ensures
            final(self).wf(),
            final(self).spec_revision() == old(self).spec_revision(),
            final(self).spec_inputs() == old(self).spec_inputs().insert(
                key,
                (StampedValue {
                    value,
                    changed_at: ChangedAt {
                        revision: (Revision { number: old(self).spec_revision() }),
                        is_constant: false,
                    },
                }),
            ),
            final(self).spec_stack() == old(self).spec_stack(),
            final(self).spec_query_reads() == old(self).spec_query_reads(),
    {
        let current = Revision { number: self.revision };
        proof {
            if self.spec_inputs().dom().contains(key) {
                assert(self.spec_inputs()[key].changed_at.revision.number
                    <= self.spec_revision());
            }
        }
        self.storage.set_unchecked(key, value, current);
        proof {
            assert forall|k: u64| #[trigger]
                self.spec_inputs().dom().contains(k)
                    implies self.spec_inputs()[k].changed_at.revision.number
                    <= self.spec_revision() by {
                if k != key {
                    assert(old(self).spec_inputs().dom().contains(k));
                }
            }
        }
    }

    /// The query-read hook: notifies this runtime that the current execution
    /// depended on the query identified by `descriptor` as of `changed_at`.
    /// The pair is appended to this context's record of dependency reads, the
    /// record from which a caller's own stamp is taken at least as new as
    /// every stamp it read.
    pub fn report_query_read(&mut self, descriptor: u64, changed_at: ChangedAt)
        ensures
            final(self).spec_query_reads() == old(self).spec_query_reads().push(
                (descriptor, changed_at),
            ),
            final(self).spec_inputs() == old(self).spec_inputs(),
            final(self).spec_revision() == old(self).spec_revision(),
            final(self).spec_stack() == old(self).spec_stack(),
    {
        self.query_reads.push((descriptor, changed_at));
    }

    /// Point read for a query body: performs `read` on the input identified
    /// by `descriptor`, reports the dependency to this runtime — exactly
    /// once, through `report_query_read`, with that descriptor and the
    /// returned stamp — and hands back the bare value. A failed read reports
    /// nothing.
    pub fn try_fetch(&mut self, descriptor: u64, key: u64) -> (r: Result<u64, InputError>)
        ensures
            old(self).spec_inputs().dom().contains(key) ==> r == Ok::<u64, InputError>(
                old(self).spec_inputs()[key].value,
            ) && final(self).spec_query_reads() == old(self).spec_query_reads().push(
                (descriptor, old(self).spec_inputs()[key].changed_at),
            ) && final(self).spec_inputs() == old(self).spec_inputs()
                && final(self).spec_revision() == old(self).spec_revision()
                && final(self).spec_stack() == old(self).spec_stack(),
            !old(self).spec_inputs().dom().contains(key) ==> *final(self) == *old(self) && r
                == Err::<u64, InputError>((InputError::UnsetInput { key })),
    {
        let stamped = match self.storage.read(key) {
            Ok(stamped) => stamped,
            Err(e) => {
                return Err(e);
            },
        };
        self.report_query_read(descriptor, stamped.changed_at);
        Ok(stamped.value)
    }

    /// The dependency reads reported so far, oldest first: for each, the
    /// descriptor of the query that was read and the stamp it carried.
    pub fn query_reads(&self) -> (r: &Vec<(u64, ChangedAt)>)
        ensures
            r@ == self.spec_query_reads(),
    {
        &self.query_reads
    }

    /// The cycle check followed by the push that moves this execution context
    /// one level deeper. If the descriptor is already anywhere on the stack,
    /// the stack is left unchanged and the cycle's chain is reported instead.
    pub fn push_query(&mut self, descriptor: u64) -> (r: Result<(), CycleError>)
        ensures
            !old(self).spec_stack().contains(descriptor) ==> (r matches Ok(()))
                && final(self).spec_stack() == old(self).spec_stack().push(descriptor),
            old(self).spec_stack().contains(descriptor) ==> *final(self) == *old(self) && (
            r matches Err(e) && e.chain@ == spec_cycle_chain(old(self).spec_stack(), descriptor)),
            final(self).spec_inputs() == old(self).spec_inputs(),
            final(self).spec_revision() == old(self).spec_revision(),
            final(self).spec_query_reads() == old(self).spec_query_reads(),
    {
        if self.stack_contains(descriptor) {
            let chain = self.report_unexpected_cycle(descriptor);
            return Err(CycleError { chain });
        }
        self.execution_stack.push(descriptor);
        Ok(())
    }

    /// The pop that ends a query execution: removes and returns the top
    /// descriptor, or nothing when the context is idle.
    pub fn pop_query(&mut self) -> (r: Option<u64>)
        ensures
            old(self).spec_stack().len() == 0 ==> r == None::<u64>
                && final(self).spec_stack() == old(self).spec_stack(),
            old(self).spec_stack().len() > 0 ==> r == Some(old(self).spec_stack().last())
                && final(self).spec_stack() == old(self).spec_stack().drop_last(),
            final(self).spec_inputs() == old(self).spec_inputs(),
            final(self).spec_revision() == old(self).spec_revision(),
            final(self).spec_query_reads() == old(self).spec_query_reads(),
    {
        self.execution_stack.pop()
    }

    fn stack_contains(&self, descriptor: u64) -> (r: bool)
        ensures
            r == self.spec_stack().contains(descriptor),
    {
        let n = self.execution_stack.len();
        let mut i: usize = 0;
        while i < n
            invariant
                i <= n,
                n == self.spec_stack().len(),
                forall|j: int| 0 <= j < i ==> self.spec_stack()[j] != descriptor,
            decreases n - i,
        {
            if self.execution_stack[i] == descriptor {
                return true;
            }
            i = i + 1;
        }
        false
    }

    /// The single choke point through which a query body runs: the cycle
    /// check, the push of the query's descriptor, the body on the key, and
    /// the pop on completion. The stack is restored whatever the body
    /// returns, so it remains an accurate record of the call chain.
    pub fn execute_query_implementation<F: FnOnce(u64) -> u64>(
        &mut self,
        descriptor: u64,
        key: u64,
        body: F,
    ) -> (r: Result<u64, CycleError>)
        requires
            call_requires(body, (key,)),
        ensures
            !old(self).spec_stack().contains(descriptor) ==> (r matches Ok(value) && call_ensures(
                body,
                (key,),
                value,
            )),
            old(self).spec_stack().contains(descriptor) ==> (r matches Err(e) && e.chain@
                == spec_cycle_chain(old(self).spec_stack(), descriptor)),
            final(self).spec_stack() == old(self).spec_stack(),
            final(self).spec_inputs() == old(self).spec_inputs(),
            final(self).spec_revision() == old(self).spec_revision(),
            final(self).spec_query_reads() == old(self).spec_query_reads(),
    {
        match self.push_query(descriptor) {
            Ok(()) => {},
            Err(e) => {
                return Err(e);
            },
        }
        let value = body(key);
        let _popped = self.pop_query();
        proof {
            assert(old(self).spec_stack().push(descriptor).drop_last()
                =~= old(self).spec_stack());
        }
        Ok(value)
    }

    /// Scans the execution stack from the top backward for the most recent
    /// occurrence of `descriptor` and returns the chain of descriptors from
    /// that occurrence to the top: the participants of the cycle, reported to
    /// the caller as the unrecoverable diagnostic.
    pub fn report_unexpected_cycle(&self, descriptor: u64) -> (r: Vec<u64>)
        requires
            self.spec_stack().contains(descriptor),
        ensures
            r@ == spec_cycle_chain(self.spec_stack(), descriptor),
    {
        let start = last_occurrence(&self.execution_stack, descriptor);
        proof {
            self.spec_stack().index_of_last_ensures(descriptor);
        }
        let n = self.execution_stack.len();
        let mut chain: Vec<u64> = Vec::new();
        let mut i: usize = start;
        while i < n
            invariant
                start <= i <= n,
                n == self.spec_stack().len(),
                chain@ == self.spec_stack().subrange(start as int, i as int),
            decreases n - i,
        {
            let descriptor_at_i = self.execution_stack[i];
            chain.push(descriptor_at_i);
            proof {
                assert(chain@ =~= self.spec_stack().subrange(start as int, i + 1 as int));
            }
            i = i + 1;
        }
        proof {
            assert(start as int == self.spec_stack().index_of_last(descriptor).unwrap());
        }
        chain
    }
}

/// Index of the most recent occurrence of `descriptor` on the stack.
fn last_occurrence(stack: &Vec<u64>, descriptor: u64) -> (idx: usize)
    requires
        stack@.contains(descriptor),
    ensures
        idx < stack@.len(),
        stack@[idx as int] == descriptor,
        forall|j: int| idx < j < stack@.len() ==> stack@[j] != descriptor,
{
    let mut i: usize = stack.len();
    loop
        invariant
            i <= stack@.len(),
            exists|j: int| 0 <= j < i && stack@[j] == descriptor,
            forall|j: int| i <= j < stack@.len() ==> stack@[j] != descriptor,
        decreases i,
    {
        i = i - 1;
        if stack[i] == descriptor {
            return i;
        }
    }
}

impl Default for Runtime {
    /// A fresh runtime: empty storage, the counter at the baseline revision,
    /// and an idle execution context.
    fn default() -> (r: Runtime)
        ensures
            r.spec_inputs() == crate::input::empty_inputs(),
            r.spec_revision() == 0,
            r.spec_stack() == Seq::<u64>::empty(),
            r.spec_query_reads() == Seq::<(u64, ChangedAt)>::empty(),
            r.wf(),
    {
        Runtime {
            storage: InputStorage::default(),
            revision: 0,
            execution_stack: Vec::new(),
            query_reads: Vec::new(),
        }
    }
}
} // verus!
