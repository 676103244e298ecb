//! The loop that feeds events to a peer.
use vstd::prelude::*;

use crate::event::{ActionEv, Event, ProcResult, TimeoutEv};

verus! {

/// What the loop has been told since it last said what to do.
#[derive(Debug)]
pub enum LoopEvent {
    /// The loop was woken.
    Woken,
    /// The queue had this event.
    Received(ActionEv),
    /// The queue is empty for now.
    QueueEmpty,
    /// The queue is empty and nothing can be put into it any more.
    QueueClosed,
    /// The timer has run out.
    TimerFired,
    /// The timer still runs.
    TimerPending,
    /// The timer broke.
    TimerFailed,
    /// The timer was set as asked.
    TimerSet,
    /// The event from the queue was handled.
    ActionHandled(ProcResult),
    /// The timeout was handled.
    TimeoutHandled(ProcResult),
}

/// What the loop wants done; durations are in milliseconds.
#[derive(Debug)]
pub enum LoopAction {
    /// Look into the queue.
    PollQueue,
    /// Look at the timer.
    PollTimer,
    /// Let the peer handle the event.
    Handle(Event),
    /// Set the timer.
    ResetTimer(u64),
    /// Replace the timer by a new one.
    NewTimer(u64),
    /// Sleep until the queue or the timer wakes the loop.
    Sleep,
    /// The loop has ended.
    Finish,
}

/// The state of the loop.
#[derive(Clone, Copy, Debug, PartialEq, Eq, Structural)]
pub struct EventLoop {
    /// The duration that the timer had at first, in milliseconds.
    pub default_dur: u64,
    /// What it means that the timer runs out.
    pub timeout_ev: TimeoutEv,
    pub running: bool,
}

impl EventLoop {
    /// The state after the loop has been told something.
    pub open spec fn after(self, ev: LoopEvent) -> EventLoop {
        match ev {
            LoopEvent::ActionHandled(ProcResult::UpdateTimeout(_, timeout_ev)) => EventLoop {
                timeout_ev,
                ..self
            },
            LoopEvent::TimeoutHandled(ProcResult::UpdateTimeout(_, timeout_ev)) => EventLoop {
                timeout_ev,
                ..self
            },
            LoopEvent::ActionHandled(ProcResult::Stop) => EventLoop { running: false, ..self },
            LoopEvent::TimeoutHandled(ProcResult::Stop) => EventLoop { running: false, ..self },
            _ => self,
        }
    }

    /// How the loop goes round: it looks into the queue first, if it still runs.
    pub open spec fn again(self) -> LoopAction {
        if self.running {
            LoopAction::PollQueue
        } else {
            LoopAction::Finish
        }
    }

    /// What the loop wants done after it has been told something.
    pub open spec fn action(self, ev: LoopEvent) -> LoopAction {
        match ev {
            LoopEvent::Received(ev) => LoopAction::Handle(Event::Action(ev)),
            LoopEvent::QueueEmpty => LoopAction::PollTimer,
            LoopEvent::QueueClosed => LoopAction::Finish,
            LoopEvent::TimerFired => LoopAction::Handle(Event::Timeout(self.timeout_ev)),
            LoopEvent::TimerPending => LoopAction::Sleep,
            LoopEvent::TimerFailed => LoopAction::NewTimer(self.default_dur),
            LoopEvent::ActionHandled(ProcResult::UpdateTimeout(dur, _)) => LoopAction::ResetTimer(
                dur,
            ),
            LoopEvent::TimeoutHandled(ProcResult::UpdateTimeout(dur, _)) => LoopAction::ResetTimer(
                dur,
            ),
            LoopEvent::TimeoutHandled(ProcResult::GoOn) => LoopAction::ResetTimer(self.default_dur),
            LoopEvent::ActionHandled(ProcResult::Stop) => LoopAction::Finish,
            LoopEvent::TimeoutHandled(ProcResult::Stop) => LoopAction::Finish,
            LoopEvent::Woken | LoopEvent::TimerSet | LoopEvent::ActionHandled(ProcResult::GoOn) =>
                self.again(),
        }
    }

    /// A loop whose timer runs for `timeout` milliseconds at first.
    pub fn new(timeout: u64, timeout_ev: TimeoutEv) -> (res: EventLoop)
        ensures
            res == (EventLoop { default_dur: timeout, timeout_ev, running: true }),
    {
        EventLoop { default_dur: timeout, timeout_ev, running: true }
    }

    /// Goes one step. Whoever runs the loop does what it asks for and tells it what came of it.
    pub fn poll(&mut self, ev: LoopEvent) -> (res: LoopAction)
        ensures
            *final(self) == old(self).after(ev),
            res == old(self).action(ev),
    {
        match ev {
            LoopEvent::Woken => self.go_round(),
            LoopEvent::TimerSet => self.go_round(),
            LoopEvent::Received(ev) => LoopAction::Handle(Event::Action(ev)),
            LoopEvent::QueueEmpty => LoopAction::PollTimer,
            LoopEvent::QueueClosed => LoopAction::Finish,
            LoopEvent::TimerFired => LoopAction::Handle(Event::Timeout(self.timeout_ev)),
            LoopEvent::TimerPending => LoopAction::Sleep,
            LoopEvent::TimerFailed => LoopAction::NewTimer(self.default_dur),
            LoopEvent::ActionHandled(res) => match res {
                ProcResult::UpdateTimeout(dur, timeout_ev) => {
                    self.timeout_ev = timeout_ev;
                    LoopAction::ResetTimer(dur)
                },
                ProcResult::GoOn => self.go_round(),
                ProcResult::Stop => {
                    self.running = false;
                    LoopAction::Finish
                },
            },
            LoopEvent::TimeoutHandled(res) => match res {
                ProcResult::UpdateTimeout(dur, timeout_ev) => {
                    self.timeout_ev = timeout_ev;
                    LoopAction::ResetTimer(dur)
                },
                ProcResult::GoOn => LoopAction::ResetTimer(self.default_dur),
                ProcResult::Stop => {
                    self.running = false;
                    LoopAction::Finish
                },
            },
        }
    }

    fn go_round(&self) -> (res: LoopAction)
        ensures
            res == self.again(),
    {
        if self.running {
            LoopAction::PollQueue
        } else {
            LoopAction::Finish
        }
    }
}

} // verus!
