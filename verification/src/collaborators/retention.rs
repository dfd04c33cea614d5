//! Retention of memory items by age.

use super::store::MemoryItem;
use crate::domain::memory::{now, Timestamp};
use vstd::prelude::*;

verus! {

/// Action decided by a [`RetentionPolicy`].
#[derive(Debug, Clone, Copy, PartialEq, Eq, Structural)]
pub enum RetentionAction {
    /// Keep the item as-is.
    Keep,
    /// Archive the item to long-term storage.
    Archive,
    /// Permanently remove the item.
    Delete,
}

/// Evaluates whether memory items should be kept, archived, or deleted.
pub trait RetentionPolicy {
    /// Evaluates the given item and returns the action to apply.
    fn evaluate(&self, item: &MemoryItem) -> RetentionAction;
}

/// Nanoseconds per second.
pub const NANOS_PER_SECOND: i128 = 1_000_000_000;

/// The time from `then` to `now`, in nanoseconds.
pub open spec fn age(then: Timestamp, now: Timestamp) -> int {
    (now.secs - then.secs) * NANOS_PER_SECOND + (now.nanos - then.nanos)
}

/// Time-to-live retention policy: items older than the time to live are
/// deleted, all others kept.
#[derive(Debug, Clone, Copy)]
pub struct TtlRetentionPolicy {
    ttl_nanos: i128,
}

impl TtlRetentionPolicy {
    /// The time to live, in nanoseconds.
    pub closed spec fn ttl(&self) -> int {
        self.ttl_nanos as int
    }

    /// Creates a policy that deletes items older than `ttl_nanos` nanoseconds.
    pub fn new(ttl_nanos: i128) -> (policy: Self)
        ensures
            policy.ttl() == ttl_nanos,
    {
        TtlRetentionPolicy { ttl_nanos }
    }

    /// Decides about `item` as of the instant `now`: delete if the item is
    /// older than the time to live, keep otherwise.
    pub fn evaluate_at(&self, item: &MemoryItem, now: Timestamp) -> (action: RetentionAction)
        ensures
            action == if age(item.timestamp, now) > self.ttl() {
                RetentionAction::Delete
            } else {
                RetentionAction::Keep
            },
    {
        let seconds: i128 = now.secs as i128 - item.timestamp.secs as i128;
        let nanos: i128 = now.nanos as i128 - item.timestamp.nanos as i128;
        let elapsed: i128 = seconds * NANOS_PER_SECOND + nanos;
        if elapsed > self.ttl_nanos {
            RetentionAction::Delete
        } else {
            RetentionAction::Keep
        }
    }
}

impl RetentionPolicy for TtlRetentionPolicy {
    /// Decides about `item` as of the current time.
    fn evaluate(&self, item: &MemoryItem) -> (action: RetentionAction)
        ensures
            self.decides(item.timestamp, action),
            action == RetentionAction::Delete || action == RetentionAction::Keep,
    {
        let instant = now();
        let action = self.evaluate_at(item, instant);
        assert(self.decision(item.timestamp, instant) == action);
        action
    }
}

impl TtlRetentionPolicy {
    /// The action for an item created at `created`, as of the instant `now`:
    /// delete if the item is older than the time to live, keep otherwise.
    pub open spec fn decision(&self, created: Timestamp, now: Timestamp) -> RetentionAction {
        if age(created, now) > self.ttl() {
            RetentionAction::Delete
        } else {
            RetentionAction::Keep
        }
    }

    /// Whether `action` is the decision about an item created at `created`
    /// as of some instant: the one at which the clock was read.
    pub open spec fn decides(&self, created: Timestamp, action: RetentionAction) -> bool {
        exists|now: Timestamp| #[trigger] self.decision(created, now) == action
    }
}

} // verus!
