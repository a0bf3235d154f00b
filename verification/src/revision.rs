//! Pure data model for logical time: revisions and change stamps.

use vstd::prelude::*;

verus! {

/// A logical point in time for one runtime/storage group. Revisions are
/// minted by the runtime's write barrier and only ever increase.
#[derive(Clone, Copy, Debug, PartialEq, Eq, Structural)]
pub struct Revision {
    pub number: u64,
}

impl Revision {
    /// The baseline revision: the counter's value at runtime construction,
    /// and the implicit stamp of a key that was never written.
    pub fn zero() -> (r: Revision)
        ensures
            r.number == 0,
    {
        Revision { number: 0 }
    }
}

/// What `ChangedAt::changed_since` answers: is the stamped revision strictly
/// newer than `other`?
pub open spec fn spec_changed_since(stamp: ChangedAt, other: Revision) -> bool {
    stamp.revision.number > other.number
}

/// Provenance stamp for one stored value: when it last changed and whether it
/// is frozen for the remaining lifetime of the database.
#[derive(Clone, Copy, Debug, PartialEq, Eq, Structural)]
pub struct ChangedAt {
    pub revision: Revision,
    pub is_constant: bool,
}

impl ChangedAt {
    /// True iff the stamped revision is strictly newer than `other`: the one
    /// primitive the rest of the system uses to answer "is this stale".
    pub fn changed_since(&self, other: Revision) -> (r: bool)
        ensures
            r == spec_changed_since(*self, other),
    {
        self.revision.number > other.number
    }
}

/// A value paired with the revision at which it last changed and whether it
/// can ever change again.
#[derive(Clone, Copy, Debug, PartialEq, Eq, Structural)]
pub struct StampedValue {
    pub value: u64,
    pub changed_at: ChangedAt,
}

} // verus!
