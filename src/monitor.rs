//! The queue monitor's decisions: when to sample the depth of the decoded
//! image queue, when to warn, and when to stop.
use vstd::prelude::*;

verus! {

/// What the monitor does on one tick.
#[derive(Clone, Copy, Debug, PartialEq, Eq, Structural)]
pub enum MonitorAction {
    /// Read the queue depth, and warn if it is not zero.
    Sample,
    /// Sleep one tick.
    Wait,
    /// Cancellation was signalled: end the monitor.
    Stop,
}

/// A monitor that samples once every `period` ticks and checks for
/// cancellation on each tick in between.
#[derive(Clone, Copy, Debug, PartialEq, Eq, Structural)]
pub struct QueueMonitor {
    pub period: u32,
    /// Ticks still to wait before the next sample.
    pub waiting: u32,
}

impl QueueMonitor {
    /// The well-formed monitors: a positive period, and never more ticks
    /// to wait than one period.
    pub open spec fn wf(&self) -> bool {
        0 < self.period && self.waiting <= self.period
    }

    /// A monitor that samples at once, then once every `period` ticks.
    pub fn new(period: u32) -> (r: QueueMonitor)
        requires
            period > 0,
        ensures
            r.wf(),
            r == (QueueMonitor { period, waiting: 0 }),
    {
        QueueMonitor { period, waiting: 0 }
    }

    /// One tick: sample when due; otherwise stop if cancelled, else wait.
    pub fn tick(&mut self, cancelled: bool) -> (r: MonitorAction)
        requires
            old(self).wf(),
        ensures
            final(self).wf(),
            final(self).period == old(self).period,
            old(self).waiting == 0 ==> r == MonitorAction::Sample && final(self).waiting == old(self).period,
            old(self).waiting > 0 && cancelled ==> r == MonitorAction::Stop && *final(self) == *old(self),
            old(self).waiting > 0 && !cancelled ==> r == MonitorAction::Wait && final(self).waiting
                == old(self).waiting - 1,
    {
        if self.waiting == 0 {
            self.waiting = self.period;
            MonitorAction::Sample
        } else if cancelled {
            MonitorAction::Stop
        } else {
            self.waiting = self.waiting - 1;
            MonitorAction::Wait
        }
    }
}

/// Whether a sampled queue depth means that loading outruns hashing.
pub fn backlog_warning(depth: usize) -> (r: bool)
    ensures
        r == (depth > 0),
{
    depth > 0
}

} // verus!
