//! The main loop's decisions: what each event asks of it, how queued
//! requests are drained, and when redraws happen, so that bursts of redraw
//! requests are coalesced and no two redraws follow closer than the minimum
//! interval.
use vstd::prelude::*;
use crate::types::MainAction;

verus! {

/// Minimum time between two redraws, in milliseconds; requests arriving
/// sooner are deferred.
pub const MIN_REDRAW_INTERVAL_MS: u64 = 100;

/// What woke the main loop.
#[derive(Debug, Clone, Copy, PartialEq, Eq, Structural)]
pub enum LoopEvent {
    /// Events of the Wayland surfaces.
    Wayland,
    /// The user interrupted the program (Ctrl+C).
    Interrupt,
    /// The deadline of a deferred redraw passed.
    Deadline,
    /// A request of an item arrived (`None`: the channel yielded nothing).
    Request(Option<MainAction>),
}

/// What the main loop does after draining the queued requests.
#[derive(Debug, Clone, Copy, PartialEq, Eq, Structural)]
pub enum AfterDrain {
    /// Redraw now.
    Redraw,
    /// Redraw now if the minimum interval has passed, else defer.
    RedrawWhenDue,
}

/// What the main loop does in answer to an event.
#[derive(Debug, Clone, Copy, PartialEq, Eq, Structural)]
pub enum LoopStep {
    /// Nothing more.
    Continue,
    /// Leave the loop.
    Stop,
    /// Create the bar anew and forget the frames drawn.
    RebuildBar,
    /// Drain the queued requests (see `DrainStep`), then go on as said.
    Drain(AfterDrain),
}

/// What draining does with one queued request.
#[derive(Debug, Clone, Copy, PartialEq, Eq, Structural)]
pub enum DrainStep {
    /// A redraw request: it joins the redraw to come.
    Coalesce,
    /// Create the bar anew and forget the frames drawn, then go on.
    RebuildBar,
    /// Leave the main loop.
    Stop,
    /// The queue is empty: draining is done.
    Finished,
}

/// The main loop's memory: whether a redraw waits for its deadline.
#[derive(Debug, Clone, Copy, PartialEq, Eq, Structural)]
pub struct RedrawScheduler {
    pub pending: bool,
}

/// The answer to an event, for a loop where a redraw is `pending` or not.
pub open spec fn step_spec(pending: bool, e: LoopEvent) -> LoopStep {
    match e {
        LoopEvent::Wayland => LoopStep::Continue,
        LoopEvent::Interrupt => LoopStep::Stop,
        LoopEvent::Deadline => if pending { LoopStep::Drain(AfterDrain::Redraw) } else { LoopStep::Continue },
        LoopEvent::Request(None) => LoopStep::Continue,
        LoopEvent::Request(Some(a)) => match a {
            MainAction::Reinit => LoopStep::RebuildBar,
            MainAction::Terminate => LoopStep::Stop,
            MainAction::Redraw => LoopStep::Drain(AfterDrain::RedrawWhenDue),
        },
    }
}

/// What draining does with the request `next` taken off the queue.
pub open spec fn drain_spec(next: Option<MainAction>) -> DrainStep {
    match next {
        Some(MainAction::Redraw) => DrainStep::Coalesce,
        Some(MainAction::Reinit) => DrainStep::RebuildBar,
        Some(MainAction::Terminate) => DrainStep::Stop,
        None => DrainStep::Finished,
    }
}

/// After draining, `since_last` milliseconds after the last redraw,
/// with a redraw `pending` or not: whether to redraw now, and whether a
/// redraw waits afterwards.
pub open spec fn after_drain_spec(pending: bool, then: AfterDrain, since_last: u64) -> (bool, bool) {
    match then {
        AfterDrain::Redraw => (true, false),
        AfterDrain::RedrawWhenDue => if since_last >= MIN_REDRAW_INTERVAL_MS {
            (true, pending)
        } else {
            (false, true)
        },
    }
}

impl RedrawScheduler {
    /// A loop with no redraw waiting.
    pub fn new() -> (s: RedrawScheduler)
        ensures
            !s.pending,
    {
        RedrawScheduler { pending: false }
    }

    /// How long to wait for the deadline of a deferred redraw, `elapsed`
    /// milliseconds after the last redraw: `None` where no redraw waits.
    pub fn wait_ms(&self, elapsed: u64) -> (r: Option<u64>)
        ensures
            r == if self.pending {
                Some(if elapsed >= MIN_REDRAW_INTERVAL_MS { 0u64 } else { (MIN_REDRAW_INTERVAL_MS - elapsed) as u64 })
            } else {
                None::<u64>
            },
    {
        if self.pending {
            if elapsed >= MIN_REDRAW_INTERVAL_MS {
                Some(0)
            } else {
                Some(MIN_REDRAW_INTERVAL_MS - elapsed)
            }
        } else {
            None
        }
    }

    /// The answer to an event (the deadline only counts while a redraw
    /// waits).
    pub fn on_event(&self, e: LoopEvent) -> (r: LoopStep)
        ensures
            r == step_spec(self.pending, e),
    {
        match e {
            LoopEvent::Wayland => LoopStep::Continue,
            LoopEvent::Interrupt => LoopStep::Stop,
            LoopEvent::Deadline => if self.pending {
                LoopStep::Drain(AfterDrain::Redraw)
            } else {
                LoopStep::Continue
            },
            LoopEvent::Request(None) => LoopStep::Continue,
            LoopEvent::Request(Some(a)) => match a {
                MainAction::Reinit => LoopStep::RebuildBar,
                MainAction::Terminate => LoopStep::Stop,
                MainAction::Redraw => LoopStep::Drain(AfterDrain::RedrawWhenDue),
            },
        }
    }

    /// What draining does with the request `next` taken off the queue.
    pub fn drain_step(next: Option<MainAction>) -> (r: DrainStep)
        ensures
            r == drain_spec(next),
    {
        match next {
            Some(MainAction::Redraw) => DrainStep::Coalesce,
            Some(MainAction::Reinit) => DrainStep::RebuildBar,
            Some(MainAction::Terminate) => DrainStep::Stop,
            None => DrainStep::Finished,
        }
    }

    /// After draining (without a request to stop), `since_last`
    /// milliseconds after the last redraw: whether to redraw now. A
    /// deadline's redraw clears the waiting redraw; a request's redraw is
    /// deferred while the minimum interval has not passed.
    pub fn after_drain(&mut self, then: AfterDrain, since_last: u64) -> (redraw: bool)
        ensures
            (redraw, final(self).pending) == after_drain_spec(old(self).pending, then, since_last),
    {
        match then {
            AfterDrain::Redraw => {
                self.pending = false;
                true
            },
            AfterDrain::RedrawWhenDue => {
                if since_last >= MIN_REDRAW_INTERVAL_MS {
                    true
                } else {
                    self.pending = true;
                    false
                }
            },
        }
    }
}

/// A redraw request is never lost, and never served early: once the queue
/// is drained, the bar is redrawn at once exactly when the minimum interval
/// has passed since the last redraw, and otherwise a redraw waits for its
/// deadline.
pub proof fn law_redraw_request_is_served(pending: bool, since_last: u64)
    ensures
        ({
            let then = match step_spec(pending, LoopEvent::Request(Some(MainAction::Redraw))) {
                LoopStep::Drain(t) => t,
                _ => AfterDrain::Redraw,
            };
            let (redraw, waits) = after_drain_spec(pending, then, since_last);
            &&& step_spec(pending, LoopEvent::Request(Some(MainAction::Redraw))) is Drain
            &&& redraw || waits
            &&& redraw <==> since_last >= MIN_REDRAW_INTERVAL_MS
            &&& waits ==> step_spec(waits, LoopEvent::Deadline) == LoopStep::Drain(AfterDrain::Redraw)
        }),
{
}

/// The deadline of a waiting redraw is never further away than the
/// minimum interval, and once it passes the redraw happens and no longer
/// waits.
pub proof fn law_deadline_redraws(elapsed: u64)
    ensures
        ({
            let w = if elapsed >= MIN_REDRAW_INTERVAL_MS { 0int } else { MIN_REDRAW_INTERVAL_MS - elapsed };
            0 <= w <= MIN_REDRAW_INTERVAL_MS
        }),
        after_drain_spec(true, AfterDrain::Redraw, elapsed) == (true, false),
{
}

/// A request to terminate always ends the loop, whether it arrives as an
/// event or while the queue is drained.
pub proof fn law_terminate_stops(pending: bool)
    ensures
        step_spec(pending, LoopEvent::Request(Some(MainAction::Terminate))) == LoopStep::Stop,
        drain_spec(Some(MainAction::Terminate)) == DrainStep::Stop,
        step_spec(pending, LoopEvent::Interrupt) == LoopStep::Stop,
{
}

} // verus!
