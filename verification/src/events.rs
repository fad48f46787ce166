//! Change notification: three independent version counters bumped on
//! mutation, and the polling cursor that decides when a subscriber must
//! be sent a fresh snapshot.

use vstd::prelude::*;

verus! {

/// One counter step: the counter grows by one until it would reach the
/// maximum representable value, where it resets to zero instead of
/// wrapping. Observers must therefore treat "changed" as "not equal to
/// the last seen value", never as "increased".
pub open spec fn spec_bump(v: u64) -> u64 {
    if v >= u64::MAX - 1 {
        0
    } else {
        (v + 1) as u64
    }
}

/// Advance a change counter by one step, as [`spec_bump`] describes.
pub fn bump_version(version: u64) -> (r: u64)
    ensures
        r == spec_bump(version),
{
    if version >= u64::MAX - 1 {
        0
    } else {
        version + 1
    }
}

/// Counter overflow resets to zero: stepping from the maximum
/// representable value — or from the value just below it, which the step
/// would carry to the maximum — yields zero, not the maximum plus one.
pub proof fn lemma_version_wraps_to_zero()
    ensures
        spec_bump(u64::MAX) == 0,
        spec_bump((u64::MAX - 1) as u64) == 0,
        forall|v: u64| v < u64::MAX - 1 ==> #[trigger] spec_bump(v) == v + 1,
{
}

/// The three independent change counters: queue contents, system status,
/// and recent activity.
pub struct EventState {
    pub queue_version: u64,
    pub status_version: u64,
    pub recent_activity_version: u64,
}

impl EventState {
    /// All three counters start at zero.
    pub fn new() -> (r: EventState)
        ensures
            r.queue_version == 0,
            r.status_version == 0,
            r.recent_activity_version == 0,
    {
        EventState { queue_version: 0, status_version: 0, recent_activity_version: 0 }
    }

    /// Record a queue mutation.
    pub fn increment_queue_version(&mut self)
        ensures
            final(self).queue_version == spec_bump(old(self).queue_version),
            final(self).status_version == old(self).status_version,
            final(self).recent_activity_version == old(self).recent_activity_version,
    {
        self.queue_version = bump_version(self.queue_version);
    }

    /// Record a status mutation.
    pub fn increment_status_version(&mut self)
        ensures
            final(self).status_version == spec_bump(old(self).status_version),
            final(self).queue_version == old(self).queue_version,
            final(self).recent_activity_version == old(self).recent_activity_version,
    {
        self.status_version = bump_version(self.status_version);
    }

    /// Record a completion that changes the recent-activity view.
    pub fn increment_recent_activity_version(&mut self)
        ensures
            final(self).recent_activity_version == spec_bump(old(self).recent_activity_version),
            final(self).queue_version == old(self).queue_version,
            final(self).status_version == old(self).status_version,
    {
        self.recent_activity_version = bump_version(self.recent_activity_version);
    }
}

/// A subscriber's view of the counters: the last value of each that it
/// has acted on.
pub struct EventCursor {
    pub last_queue_version: u64,
    pub last_status_version: u64,
    pub last_recent_activity_version: u64,
}

impl EventCursor {
    /// A fresh cursor that has seen the initial counter values, as a
    /// subscriber starts after its first full snapshot.
    pub fn new() -> (r: EventCursor)
        ensures
            r.last_queue_version == 0,
            r.last_status_version == 0,
            r.last_recent_activity_version == 0,
    {
        EventCursor {
            last_queue_version: 0,
            last_status_version: 0,
            last_recent_activity_version: 0,
        }
    }

    /// One polling tick: each snapshot is re-fetched and emitted exactly
    /// when its counter differs from the last value seen, and the cursor
    /// catches up to the counters it acted on. Unchanged counters cause
    /// no emission.
    pub fn tick(&mut self, current: &EventState) -> (r: (bool, bool, bool))
        ensures
            r.0 == (old(self).last_queue_version != current.queue_version),
            r.1 == (old(self).last_status_version != current.status_version),
            r.2 == (old(self).last_recent_activity_version != current.recent_activity_version),
            final(self).last_queue_version == current.queue_version,
            final(self).last_status_version == current.status_version,
            final(self).last_recent_activity_version == current.recent_activity_version,
    {
        let emit_queue = self.last_queue_version != current.queue_version;
        if emit_queue {
            self.last_queue_version = current.queue_version;
        }
        let emit_status = self.last_status_version != current.status_version;
        if emit_status {
            self.last_status_version = current.status_version;
        }
        let emit_recent = self.last_recent_activity_version != current.recent_activity_version;
        if emit_recent {
            self.last_recent_activity_version = current.recent_activity_version;
        }
        (emit_queue, emit_status, emit_recent)
    }
}

} // verus!
