//! The event loop from its start on, as long as it goes.
use vstd::prelude::*;

use crate::event::{ActionEv, Event, ProcResult, TimeoutEv};
use crate::event_loop::{EventLoop, LoopAction, LoopEvent};

verus! {

/// What goes on between a loop and whoever runs it: the loop is told something, and says what it
/// wants done.
pub struct Trace {
    pub loops: Seq<EventLoop>,
    pub told: Seq<LoopEvent>,
    pub asked: Seq<LoopAction>,
}

/// Whether `ev` can come of doing what was asked for. A loop that sleeps or has finished can be
/// woken.
pub open spec fn answers(action: LoopAction, ev: LoopEvent) -> bool {
    match action {
        LoopAction::PollQueue => ev is Received || ev is QueueEmpty || ev is QueueClosed,
        LoopAction::PollTimer => ev is TimerFired || ev is TimerPending || ev is TimerFailed,
        LoopAction::Handle(Event::Action(_)) => ev is ActionHandled,
        LoopAction::Handle(Event::Timeout(_)) => ev is TimeoutHandled,
        LoopAction::ResetTimer(_) => ev is TimerSet,
        LoopAction::NewTimer(_) => ev is TimerSet,
        LoopAction::Sleep => ev is Woken,
        LoopAction::Finish => ev is Woken,
    }
}

impl Trace {
    /// Whether step `k` goes as the loop says, and answers what was asked for before.
    pub open spec fn linked(self, k: int) -> bool {
        &&& self.asked[k] == self.loops[k].action(self.told[k])
        &&& self.loops[k + 1] == self.loops[k].after(self.told[k])
        &&& if k == 0 {
            self.told[k] is Woken
        } else {
            answers(self.asked[k - 1], self.told[k])
        }
    }

    pub open spec fn valid(self) -> bool {
        &&& self.asked.len() == self.told.len()
        &&& self.loops.len() == self.told.len() + 1
        &&& forall|k: int| 0 <= k < self.told.len() ==> #[trigger] self.linked(k)
    }

    /// The events taken from the queue in the first `k` steps.
    pub open spec fn received(self, k: int) -> Seq<ActionEv>
        decreases k,
    {
        if k <= 0 {
            Seq::empty()
        } else {
            match self.told[k - 1] {
                LoopEvent::Received(ev) => self.received(k - 1).push(ev),
                _ => self.received(k - 1),
            }
        }
    }

    /// The events from the queue that the peer is to handle in the first `k` steps.
    pub open spec fn handled(self, k: int) -> Seq<ActionEv>
        decreases k,
    {
        if k <= 0 {
            Seq::empty()
        } else {
            match self.asked[k - 1] {
                LoopAction::Handle(Event::Action(ev)) => self.handled(k - 1).push(ev),
                _ => self.handled(k - 1),
            }
        }
    }

    /// The kind of timeout that was last set in the first `k` steps, or the first one.
    pub open spec fn last_set(self, k: int) -> TimeoutEv
        decreases k,
    {
        if k <= 0 {
            self.loops[0].timeout_ev
        } else {
            match self.told[k - 1] {
                LoopEvent::ActionHandled(ProcResult::UpdateTimeout(_, kind)) => kind,
                LoopEvent::TimeoutHandled(ProcResult::UpdateTimeout(_, kind)) => kind,
                _ => self.last_set(k - 1),
            }
        }
    }

    /// Whether step `k` tells the loop to stop.
    pub open spec fn stops(self, k: int) -> bool {
        ||| self.told[k] == LoopEvent::ActionHandled(ProcResult::Stop)
        ||| self.told[k] == LoopEvent::TimeoutHandled(ProcResult::Stop)
    }

    /// Every event that is taken from the queue is handled, once and in the order of the queue;
    /// and no other event is handled as one from the queue.
    pub proof fn received_events_are_handled_in_order(self, k: int)
        requires
            self.valid(),
            0 <= k <= self.told.len(),
        ensures
            self.handled(k) == self.received(k),
        decreases k,
    {
        if k > 0 {
            self.received_events_are_handled_in_order(k - 1);
            assert(self.linked(k - 1));
        }
    }

    /// The loop keeps the kind of timeout that was last set.
    proof fn kind_is_kept(self, k: int)
        requires
            self.valid(),
            0 <= k <= self.told.len(),
        ensures
            self.loops[k].timeout_ev == self.last_set(k),
        decreases k,
    {
        if k > 0 {
            self.kind_is_kept(k - 1);
            assert(self.linked(k - 1));
        }
    }

    /// A timeout is handled only when the timer has fired right after the queue was found empty,
    /// and it is of the kind that was last set.
    pub proof fn timeouts_wait_for_empty_queue(self, k: int, kind: TimeoutEv)
        requires
            self.valid(),
            0 <= k < self.told.len(),
            self.asked[k] == LoopAction::Handle(Event::Timeout(kind)),
        ensures
            k >= 2,
            self.told[k] == LoopEvent::TimerFired,
            self.asked[k - 1] == LoopAction::PollTimer,
            self.told[k - 1] == LoopEvent::QueueEmpty,
            self.asked[k - 2] == LoopAction::PollQueue,
            kind == self.last_set(k),
    {
        assert(self.linked(k));
        assert(self.linked(k - 1));
        assert(self.linked(k - 2));
        self.kind_is_kept(k);
    }

    /// What was handled in a step has the timer set right then, to just the duration that it
    /// demands.
    pub proof fn demanded_timers_are_set(self, k: int, dur: u64, kind: TimeoutEv)
        requires
            self.valid(),
            0 <= k < self.told.len(),
            self.told[k] == LoopEvent::ActionHandled(ProcResult::UpdateTimeout(dur, kind))
                || self.told[k] == LoopEvent::TimeoutHandled(ProcResult::UpdateTimeout(dur, kind)),
        ensures
            self.asked[k] == LoopAction::ResetTimer(dur),
            self.last_set(k + 1) == kind,
            k + 1 < self.told.len() ==> self.told[k + 1] is TimerSet,
    {
        assert(self.linked(k));
        if k + 1 < self.told.len() {
            assert(self.linked(k + 1));
        }
    }

    /// A loop runs from its start until it is told to stop.
    pub proof fn loop_runs_on(self, k: int)
        requires
            self.valid(),
            self.loops[0].running,
            0 <= k <= self.told.len(),
            forall|i: int| 0 <= i < k ==> !#[trigger] self.stops(i),
        ensures
            self.loops[k].running,
            k > 0 && self.asked[k - 1] == LoopAction::Finish ==> self.told[k - 1]
                == LoopEvent::QueueClosed,
        decreases k,
    {
        if k > 0 {
            self.loop_runs_on(k - 1);
            assert(self.linked(k - 1));
            assert(!self.stops(k - 1));
        }
    }

    /// The loop never sleeps on an event: it sleeps only when it has just found the queue empty and
    /// the timer still running.
    pub proof fn loop_sleeps_only_idle(self, k: int)
        requires
            self.valid(),
            0 <= k < self.told.len(),
            self.asked[k] == LoopAction::Sleep,
        ensures
            k >= 2,
            self.told[k] == LoopEvent::TimerPending,
            self.told[k - 1] == LoopEvent::QueueEmpty,
    {
        assert(self.linked(k));
        assert(self.linked(k - 1));
        assert(self.linked(k - 2));
    }

    /// An event that is taken from the queue goes to the peer in the same step, and so does the
    /// end of the timer.
    pub proof fn events_are_handled_at_once(self, k: int)
        requires
            self.valid(),
            0 <= k < self.told.len(),
        ensures
            self.told[k] matches LoopEvent::Received(ev) ==> self.asked[k] == LoopAction::Handle(
                Event::Action(ev),
            ),
            self.told[k] == LoopEvent::TimerFired ==> self.asked[k] == LoopAction::Handle(
                Event::Timeout(self.last_set(k)),
            ),
    {
        assert(self.linked(k));
        self.kind_is_kept(k);
    }

    /// Once the loop has been told to stop, it finishes whatever happens, and no event is handled
    /// any more.
    pub proof fn stopped_loop_handles_nothing(self, i: int, j: int)
        requires
            self.valid(),
            0 <= i <= j < self.told.len(),
            self.stops(i),
        ensures
            self.asked[j] == LoopAction::Finish,
            !self.loops[j + 1].running,
        decreases j,
    {
        assert(self.linked(j));
        if i < j {
            self.stopped_loop_handles_nothing(i, j - 1);
        }
    }
}

} // verus!
