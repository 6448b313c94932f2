//! Liveness of the timing device: a monitor that remembers when a heartbeat
//! was last seen and reports, once, when none has arrived for too long.

use vstd::prelude::*;

verus! {

/// A heartbeat counts as lost after this much silence, in milliseconds.
pub const HEARTBEAT_TIMEOUT_MS: u64 = 10_000;

/// The device has been silent for longer than the timeout.
pub open spec fn spec_stale(last_seen_ms: u64, now_ms: u64) -> bool {
    now_ms > last_seen_ms + HEARTBEAT_TIMEOUT_MS
}

/// Tracks when a heartbeat was last seen; its model is that instant in
/// milliseconds.
pub struct HeartbeatMonitor {
    last_seen_ms: u64,
}

impl View for HeartbeatMonitor {
    type V = u64;

    closed spec fn view(&self) -> u64 {
        self.last_seen_ms
    }
}

impl HeartbeatMonitor {
    /// A fresh monitor counts the start instant as the last heartbeat.
    pub fn new(now_ms: u64) -> (r: HeartbeatMonitor)
        ensures
            r@ == now_ms,
    {
        HeartbeatMonitor { last_seen_ms: now_ms }
    }

    /// A heartbeat arrived: remember when.
    pub fn observe(&mut self, now_ms: u64)
        ensures
            final(self)@ == now_ms,
    {
        self.last_seen_ms = now_ms;
    }

    /// One staleness poll: reports a loss exactly when the device has been
    /// silent for longer than the timeout, and re-arms on doing so, so that
    /// one loss is reported only once.
    pub fn tick(&mut self, now_ms: u64) -> (lost: bool)
        ensures
            lost == spec_stale(old(self)@, now_ms),
            final(self)@ == if lost {
                now_ms
            } else {
                old(self)@
            },
    {
        if now_ms > self.last_seen_ms && now_ms - self.last_seen_ms > HEARTBEAT_TIMEOUT_MS {
            self.last_seen_ms = now_ms;
            true
        } else {
            false
        }
    }
}

/// Once a loss is reported at `t1`, no further loss is reported before
/// another full timeout has passed.
pub proof fn lemma_loss_reported_once(last_seen: u64, t1: u64, t2: u64)
    requires
        spec_stale(last_seen, t1),
        t1 <= t2 <= t1 + HEARTBEAT_TIMEOUT_MS,
    ensures
        !spec_stale(t1, t2),
{
}

/// A heartbeat observed at `t_obs` keeps the monitor quiet for a full
/// timeout from that instant.
pub proof fn lemma_heartbeat_rearms(t_obs: u64, t: u64)
    requires
        t <= t_obs + HEARTBEAT_TIMEOUT_MS,
    ensures
        !spec_stale(t_obs, t),
{
}

} // verus!
