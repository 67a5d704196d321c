//! What all profilers share: the connection, the sampler that may be running, and the pace of
//! its loop.

use vstd::prelude::*;

use crate::errors;
use crate::errors::CoreError;

verus! {

/// The sampler of a profiler.
#[derive(Debug, Clone, Copy, PartialEq, Eq, Structural)]
pub enum SamplerState {
    /// There is none.
    Absent,
    /// It samples.
    Sampling,
    /// It waits.
    Paused,
}

/// The connection of a profiler and its sampler.
#[derive(Debug, Clone, Copy, PartialEq, Eq, Structural)]
pub struct Link {
    /// Whether the profiler is connected to a device.
    pub connected: bool,
    /// Its sampler.
    pub sampler: SamplerState,
}

/// The message for an operation that needs a connection.
pub open spec fn not_connected_text(key: Seq<char>, operation: Seq<char>) -> Seq<char> {
    key + " profiler must be connected before `"@ + operation + "`"@
}

/// The message for an operation that needs a sampler.
pub open spec fn not_running_text(key: Seq<char>) -> Seq<char> {
    key + " sampler is not running"@
}

impl Link {
    /// A sampler exists only on a connection.
    pub open spec fn wf(self) -> bool {
        !(self.sampler is Absent) ==> self.connected
    }

    /// The link of a profiler that has not been connected.
    pub open spec fn idle() -> Link {
        Link { connected: false, sampler: SamplerState::Absent }
    }

    /// Whether `r` refuses an operation for want of a connection.
    pub open spec fn refuses(self, r: Result<(), CoreError>, key: Seq<char>, operation: Seq<char>) -> bool {
        r matches Err(e) && errors::is_runtime(e, not_connected_text(key, operation))
    }

    /// What pausing or resuming comes to: the sampler changes where there is one.
    pub open spec fn switched(
        before: Link,
        after: Link,
        r: Result<(), CoreError>,
        key: Seq<char>,
        operation: Seq<char>,
        to: SamplerState,
    ) -> bool {
        if !before.connected {
            before.refuses(r, key, operation) && after == before
        } else if before.sampler is Absent {
            (r matches Err(e) && errors::is_runtime(e, not_running_text(key))) && after == before
        } else {
            r is Ok && after == (Link { sampler: to, ..before })
        }
    }

    /// The link of a profiler that has not been connected.
    pub fn new() -> (r: Link)
        ensures
            r == Link::idle(),
            r.wf(),
    {
        Link { connected: false, sampler: SamplerState::Absent }
    }

    /// Demands a connection for an operation.
    pub fn ensure_connected(&self, key: &str, operation: &str) -> (r: Result<(), CoreError>)
        ensures
            r is Ok <==> self.connected,
            r is Err ==> self.refuses(r, key@, operation@),
    {
        if self.connected {
            Ok(())
        } else {
            let mut message = String::from_str(key);
            message.append(" profiler must be connected before `");
            message.append(operation);
            message.append("`");
            Err(CoreError::Runtime(message))
        }
    }

    /// Begins a start. A sampler that is there goes on sampling. Where the result is `Ok(true)`,
    /// there is none and one has to be started.
    pub fn begin_start(&mut self, key: &str) -> (r: Result<bool, CoreError>)
        requires
            old(self).wf(),
        ensures
            final(self).wf(),
            match r {
                Ok(needed) => {
                    &&& old(self).connected
                    &&& needed == (old(self).sampler is Absent)
                    &&& *final(self) == if needed {
                        *old(self)
                    } else {
                        (Link { sampler: SamplerState::Sampling, ..*old(self) })
                    }
                },
                Err(e) => {
                    &&& !old(self).connected
                    &&& errors::is_runtime(e, not_connected_text(key@, "start"@))
                    &&& *final(self) == *old(self)
                },
            },
    {
        match self.ensure_connected(key, "start") {
            Err(e) => Err(e),
            Ok(_) => match self.sampler {
                SamplerState::Absent => Ok(true),
                _ => {
                    self.sampler = SamplerState::Sampling;
                    Ok(false)
                },
            },
        }
    }

    fn switch(&mut self, key: &str, operation: &str, to: SamplerState) -> (r: Result<(), CoreError>)
        requires
            old(self).wf(),
            !(to is Absent),
        ensures
            final(self).wf(),
            Link::switched(*old(self), *final(self), r, key@, operation@, to),
    {
        match self.ensure_connected(key, operation) {
            Err(e) => Err(e),
            Ok(_) => match self.sampler {
                SamplerState::Absent => {
                    let mut message = String::from_str(key);
                    message.append(" sampler is not running");
                    Err(CoreError::Runtime(message))
                },
                _ => {
                    self.sampler = to;
                    Ok(())
                },
            },
        }
    }

    /// Pauses the sampler.
    pub fn pause(&mut self, key: &str) -> (r: Result<(), CoreError>)
        requires
            old(self).wf(),
        ensures
            final(self).wf(),
            Link::switched(*old(self), *final(self), r, key@, "pause"@, SamplerState::Paused),
    {
        self.switch(key, "pause", SamplerState::Paused)
    }

    /// Resumes the sampler.
    pub fn restart(&mut self, key: &str) -> (r: Result<(), CoreError>)
        requires
            old(self).wf(),
        ensures
            final(self).wf(),
            Link::switched(*old(self), *final(self), r, key@, "restart"@, SamplerState::Sampling),
    {
        self.switch(key, "restart", SamplerState::Sampling)
    }
}

/// What the loop of a sampler does next.
#[derive(Debug, Clone, Copy, PartialEq, Eq, Structural)]
pub enum LoopStep {
    /// It ends.
    End,
    /// It waits for the given number of milliseconds and looks again.
    Wait(u64),
    /// It takes a sample.
    Sample,
}

/// What the loop of a sampler does next. A request to stop is heard also while it pauses.
pub fn next_step(stop_requested: bool, paused: bool) -> (r: LoopStep)
    ensures
        r == if stop_requested {
            LoopStep::End
        } else if paused {
            LoopStep::Wait(20)
        } else {
            LoopStep::Sample
        },
{
    if stop_requested {
        LoopStep::End
    } else if paused {
        LoopStep::Wait(20)
    } else {
        LoopStep::Sample
    }
}

/// The pace of a loop: how long it sleeps after its work and when its next tick is due.
#[derive(Debug, Clone, Copy, PartialEq, Eq, Structural)]
pub struct Pace {
    /// How long the loop sleeps.
    pub sleep_ns: u64,
    /// When the next tick is due.
    pub next_tick_ns: u64,
}

/// The pace of a loop. A tick that is still ahead is waited for; one that has passed is counted
/// from now on, so that missed ticks are not made up for.
pub open spec fn pace_of(next_tick_ns: u64, now_ns: u64, interval_ns: u64) -> Pace {
    if next_tick_ns > now_ns {
        Pace {
            sleep_ns: (next_tick_ns - now_ns) as u64,
            next_tick_ns: (next_tick_ns + interval_ns) as u64,
        }
    } else {
        Pace { sleep_ns: 0, next_tick_ns: (now_ns + interval_ns) as u64 }
    }
}

/// The pace of a loop, in nanoseconds since some fixed moment.
pub fn pace(next_tick_ns: u64, now_ns: u64, interval_ns: u64) -> (r: Pace)
    requires
        next_tick_ns + interval_ns <= u64::MAX,
        now_ns + interval_ns <= u64::MAX,
    ensures
        r == pace_of(next_tick_ns, now_ns, interval_ns),
{
    if next_tick_ns > now_ns {
        Pace { sleep_ns: next_tick_ns - now_ns, next_tick_ns: next_tick_ns + interval_ns }
    } else {
        Pace { sleep_ns: 0, next_tick_ns: now_ns + interval_ns }
    }
}

/// A loop never samples faster than its interval: from the moment it goes on, at least the
/// interval passes until the next tick is due, and exactly the interval where it was not late.
pub proof fn law_pace(next_tick_ns: u64, now_ns: u64, interval_ns: u64)
    requires
        next_tick_ns + interval_ns <= u64::MAX,
        now_ns + interval_ns <= u64::MAX,
    ensures
        ({
            let p = pace_of(next_tick_ns, now_ns, interval_ns);
            &&& now_ns + p.sleep_ns + interval_ns == p.next_tick_ns
            &&& now_ns + p.sleep_ns >= next_tick_ns
            &&& next_tick_ns >= now_ns ==> p.next_tick_ns == next_tick_ns + interval_ns
        }),
{
}

/// A paused sampler resumes where it was: pausing and resuming a sampler that samples changes
/// nothing, and both are refused without a sampler.
pub proof fn law_pause_and_restart(
    before: Link,
    paused: Link,
    after: Link,
    first: Result<(), CoreError>,
    second: Result<(), CoreError>,
    key: Seq<char>,
)
    requires
        Link::switched(before, paused, first, key, "pause"@, SamplerState::Paused),
        Link::switched(paused, after, second, key, "restart"@, SamplerState::Sampling),
    ensures
        first is Ok <==> second is Ok,
        before.sampler is Sampling ==> after == before,
        before.sampler is Absent ==> after == before && first is Err && second is Err,
{
}

/// Pausing and resuming reach the sampler of a connected profiler and change nothing else of it;
/// without a connection or a sampler nothing changes.
pub proof fn law_switching(
    before: Link,
    after: Link,
    r: Result<(), CoreError>,
    key: Seq<char>,
    operation: Seq<char>,
    to: SamplerState,
)
    requires
        Link::switched(before, after, r, key, operation, to),
        before.wf(),
    ensures
        r is Ok <==> before.connected && before.sampler != SamplerState::Absent,
        r is Ok ==> after.sampler == to && after.connected,
        r is Err ==> after == before,
{
}

} // verus!
