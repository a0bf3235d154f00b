//! Behaviour of the input storage seen through a runtime: reads, barrier
//! writes, constants, and the unchecked escape hatch.

use salsa::input::{InputError, InputStorage, SweepStrategy};
use salsa::revision::{ChangedAt, Revision, StampedValue};
use salsa::runtime::Runtime;

#[test]
fn fresh_runtime_is_at_the_baseline() {
    let rt = Runtime::default();
    assert_eq!(rt.current_revision(), Revision { number: 0 });
    assert_eq!(rt.storage().keys(), Vec::<u64>::new());
}

#[test]
fn set_then_read_returns_last_value_with_fresh_stamp() {
    let mut rt = Runtime::default();
    assert_eq!(rt.set(1, 10), Ok(()));
    assert_eq!(rt.current_revision(), Revision { number: 1 });
    assert_eq!(
        rt.storage().read(1),
        Ok(StampedValue {
            value: 10,
            changed_at: ChangedAt { revision: Revision { number: 1 }, is_constant: false },
        })
    );

    assert_eq!(rt.set(1, 20), Ok(()));
    let second = rt.storage().read(1).unwrap();
    assert_eq!(second.value, 20);
    assert_eq!(second.changed_at.revision, Revision { number: 2 });
    // Revisions observed across successive sets strictly increase.
    assert!(second.changed_at.revision.number > 1);
}

#[test]
fn each_set_advances_the_revision_exactly_once() {
    let mut rt = Runtime::default();
    assert_eq!(rt.set(7, 1), Ok(()));
    assert_eq!(rt.set(8, 2), Ok(()));
    assert_eq!(rt.set(7, 3), Ok(()));
    assert_eq!(rt.current_revision(), Revision { number: 3 });
    assert_eq!(rt.storage().read(7).unwrap().changed_at.revision.number, 3);
    assert_eq!(rt.storage().read(8).unwrap().changed_at.revision.number, 2);
}

#[test]
fn read_on_unset_key_is_refused_whatever_else_was_set() {
    let mut rt = Runtime::default();
    assert_eq!(
        rt.storage().read(5),
        Err(InputError::UnsetInput { key: 5 })
    );
    assert_eq!(rt.set(1, 10), Ok(()));
    assert_eq!(rt.set(2, 20), Ok(()));
    assert_eq!(rt.set(3, 30), Ok(()));
    assert_eq!(
        rt.storage().read(5),
        Err(InputError::UnsetInput { key: 5 })
    );
}

#[test]
fn try_fetch_hands_back_the_bare_value_and_reports_the_read() {
    let mut rt = Runtime::default();
    assert_eq!(rt.try_fetch(100, 4), Err(InputError::UnsetInput { key: 4 }));
    // A failed read reports no dependency.
    assert_eq!(rt.query_reads().len(), 0);

    assert_eq!(rt.set(4, 44), Ok(()));
    assert_eq!(rt.try_fetch(100, 4), Ok(44));
    // Exactly one read was reported: the fetched descriptor with the stamp
    // the read returned.
    assert_eq!(
        rt.query_reads().as_slice(),
        &[(100, ChangedAt { revision: Revision { number: 1 }, is_constant: false })]
    );

    assert_eq!(rt.set_constant(5, 55), Ok(()));
    assert_eq!(rt.try_fetch(101, 5), Ok(55));
    assert_eq!(rt.query_reads().len(), 2);
    assert_eq!(
        rt.query_reads()[1],
        (101, ChangedAt { revision: Revision { number: 2 }, is_constant: true })
    );
}

#[test]
fn report_query_read_records_each_pair_in_order() {
    let mut rt = Runtime::default();
    let first = ChangedAt { revision: Revision { number: 1 }, is_constant: false };
    let second = ChangedAt { revision: Revision { number: 4 }, is_constant: true };
    rt.report_query_read(7, first);
    rt.report_query_read(8, second);
    assert_eq!(rt.query_reads().as_slice(), &[(7, first), (8, second)]);
}

#[test]
fn maybe_changed_since_is_exact_and_false_for_unset_keys() {
    let mut rt = Runtime::default();
    // Unset key: false for any probe at or above the baseline.
    assert!(!rt.storage().maybe_changed_since(9, Revision { number: 0 }));
    assert!(!rt.storage().maybe_changed_since(9, Revision { number: 5 }));

    assert_eq!(rt.set(9, 90), Ok(()));
    // Stamped at revision 1: changed since 0, not since 1 or later.
    assert!(rt.storage().maybe_changed_since(9, Revision { number: 0 }));
    assert!(!rt.storage().maybe_changed_since(9, Revision { number: 1 }));
    assert!(!rt.storage().maybe_changed_since(9, Revision { number: 2 }));
}

#[test]
fn maybe_changed_since_is_idempotent_without_intervening_writes() {
    let mut rt = Runtime::default();
    assert_eq!(rt.set(3, 33), Ok(()));
    let first = rt.storage().maybe_changed_since(3, Revision { number: 0 });
    for _ in 0..5 {
        assert_eq!(
            rt.storage().maybe_changed_since(3, Revision { number: 0 }),
            first
        );
    }
}

#[test]
fn constant_keys_refuse_every_later_barrier_write() {
    let mut rt = Runtime::default();
    assert_eq!(rt.set_constant(2, 22), Ok(()));
    assert!(rt.storage().is_constant(2));

    assert_eq!(
        rt.set(2, 23),
        Err(InputError::ConstantViolation { key: 2, old_value: 22, new_value: 23 })
    );
    assert_eq!(
        rt.set_constant(2, 24),
        Err(InputError::ConstantViolation { key: 2, old_value: 22, new_value: 24 })
    );

    // The refused writes changed nothing and minted no revision.
    assert!(rt.storage().is_constant(2));
    assert_eq!(rt.storage().read(2).unwrap().value, 22);
    assert_eq!(rt.current_revision(), Revision { number: 1 });

    // Writes to other keys leave the constant mark in place.
    assert_eq!(rt.set(3, 30), Ok(()));
    assert!(rt.storage().is_constant(2));
}

#[test]
fn is_constant_is_false_for_unset_and_plain_keys() {
    let mut rt = Runtime::default();
    assert!(!rt.storage().is_constant(1));
    assert_eq!(rt.set(1, 10), Ok(()));
    assert!(!rt.storage().is_constant(1));
}

#[test]
fn set_unchecked_keeps_the_counter_and_stamps_the_current_revision() {
    let mut rt = Runtime::default();
    assert_eq!(rt.set(1, 10), Ok(()));
    let before = rt.current_revision();

    rt.set_unchecked(6, 60);
    assert_eq!(rt.current_revision(), before);
    let stamped = rt.storage().read(6).unwrap();
    assert_eq!(stamped.changed_at.revision, before);
    assert!(!stamped.changed_at.is_constant);
}

#[test]
fn set_unchecked_bypasses_the_constant_check_by_design() {
    let mut rt = Runtime::default();
    assert_eq!(rt.set_constant(2, 22), Ok(()));
    rt.set_unchecked(2, 99);
    assert_eq!(rt.storage().read(2).unwrap().value, 99);
    assert!(!rt.storage().is_constant(2));
}

#[test]
fn keys_snapshots_each_set_key_exactly_once() {
    let mut rt = Runtime::default();
    assert_eq!(rt.set(5, 50), Ok(()));
    assert_eq!(rt.set(1, 10), Ok(()));
    assert_eq!(rt.set(3, 30), Ok(()));
    assert_eq!(rt.set(1, 11), Ok(()));

    let mut keys = rt.storage().keys();
    keys.sort();
    assert_eq!(keys, vec![1, 3, 5]);
}

#[test]
fn sweep_evicts_nothing() {
    let mut rt = Runtime::default();
    assert_eq!(rt.set(1, 10), Ok(()));
    rt.storage().sweep(SweepStrategy {});
    assert_eq!(rt.storage().read(1).unwrap().value, 10);
    assert_eq!(rt.storage().keys(), vec![1]);
}

#[test]
fn storage_level_writes_stamp_the_revision_they_are_given() {
    let mut storage = InputStorage::default();
    assert_eq!(storage.set(1, 5, Revision { number: 3 }), Ok(()));
    let stamped = storage.read(1).unwrap();
    assert_eq!(stamped.value, 5);
    assert_eq!(stamped.changed_at.revision, Revision { number: 3 });

    assert_eq!(storage.set_constant(1, 6, Revision { number: 4 }), Ok(()));
    assert!(storage.is_constant(1));
    assert_eq!(
        storage.set(1, 7, Revision { number: 5 }),
        Err(InputError::ConstantViolation { key: 1, old_value: 6, new_value: 7 })
    );

    storage.set_unchecked(1, 8, Revision { number: 9 });
    let replaced = storage.read(1).unwrap();
    assert_eq!(replaced.value, 8);
    assert_eq!(replaced.changed_at.revision, Revision { number: 9 });
    assert!(!replaced.changed_at.is_constant);
}

#[test]
fn changed_since_compares_revisions_strictly() {
    let stamp = ChangedAt { revision: Revision { number: 3 }, is_constant: false };
    assert!(stamp.changed_since(Revision { number: 2 }));
    assert!(!stamp.changed_since(Revision { number: 3 }));
    assert!(!stamp.changed_since(Revision { number: 4 }));
    assert_eq!(Revision::zero(), Revision { number: 0 });
}
