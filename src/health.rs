//! Health status of a client that runs numbered transfers: unhealthy as soon
//! as a failure is announced, healthy again after enough later transfers.

use vstd::prelude::*;

verus! {

/// Tracks whether recent transfers succeeded.
///
/// A failure makes the tracker unhealthy at once. It becomes healthy again
/// when the transfer counter passes the counter value of the last failure by
/// more than the healing time.
#[derive(Debug)]
pub struct HealthTracker {
    /// Set to `i` for the duration of the `i`-th transfer.
    counter: usize,
    /// The counter value during the most recent failure.
    last_failure: Option<usize>,
    /// How many successful transfers it takes to forget a failure.
    healing_time: usize,
    /// Whether the last polling is considered successful.
    healthy: bool,
}

impl HealthTracker {
    pub closed spec fn counter_spec(&self) -> nat {
        self.counter as nat
    }

    pub closed spec fn last_failure_spec(&self) -> Option<usize> {
        self.last_failure
    }

    pub closed spec fn healing_time_spec(&self) -> nat {
        self.healing_time as nat
    }

    pub closed spec fn healthy_spec(&self) -> bool {
        self.healthy
    }

    /// A healthy tracker with no failure seen, whose failures are forgotten
    /// after `healing_time` successful transfers.
    pub fn new(healing_time: usize) -> (r: HealthTracker)
        ensures
            r.healthy_spec(),
            r.counter_spec() == 0,
            r.last_failure_spec() is None,
            r.healing_time_spec() == healing_time,
    {
        HealthTracker { counter: 0, last_failure: None, healing_time, healthy: true }
    }

    /// Sets the transfer counter, and becomes healthy if the last failure
    /// happened more than the healing time before `counter`.
    pub fn set_counter(&mut self, counter: usize)
        ensures
            final(self).counter_spec() == counter,
            final(self).last_failure_spec() == old(self).last_failure_spec(),
            final(self).healing_time_spec() == old(self).healing_time_spec(),
            final(self).healthy_spec() == (old(self).healthy_spec() || match old(
                self,
            ).last_failure_spec() {
                Some(f) => f + old(self).healing_time_spec() < counter,
                None => false,
            }),
    {
        self.counter = counter;
        if let Some(f) = self.last_failure {
            if f < counter && counter - f > self.healing_time {
                self.healthy = true;
            }
        }
    }

    /// Records a failure at the current counter value and becomes unhealthy.
    pub fn announce_failure(&mut self)
        ensures
            final(self).last_failure_spec() == Some(old(self).counter_spec() as usize),
            !final(self).healthy_spec(),
            final(self).counter_spec() == old(self).counter_spec(),
            final(self).healing_time_spec() == old(self).healing_time_spec(),
    {
        self.last_failure = Some(self.counter);
        self.healthy = false;
    }

    /// Whether the tracker is currently healthy.
    pub fn is_healthy(&self) -> (r: bool)
        ensures
            r == self.healthy_spec(),
    {
        self.healthy
    }

    pub fn counter(&self) -> (r: usize)
        ensures
            r == self.counter_spec(),
    {
        self.counter
    }
}

} // verus!
