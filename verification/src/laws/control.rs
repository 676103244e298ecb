//! The event loop, its timer, and how a peer is stopped.
use vstd::prelude::*;

use crate::event::{ActionEv, Event, ProcResult, Step, TimeoutEv};
use crate::event_loop::{EventLoop, LoopAction, LoopEvent};
use crate::model::RaftView;
use crate::node::{Error, Node, StartAction, StartEvent};
use crate::peer::Role;

verus! {

/// Whether the timer suits the role: it runs for a heartbeat just if the peer is the leader.
pub open spec fn timer_fits(s: RaftView, l: EventLoop) -> bool {
    l.timeout_ev == TimeoutEv::Heartbeat <==> s.role == Role::Leader
}

/// A peer that has just been made is no leader, whatever was saved before, and its timer runs for
/// an election.
pub proof fn timer_fits_at_first(peers: usize, me: usize, data: Seq<u8>, l: EventLoop)
    requires
        l.timeout_ev == TimeoutEv::Election,
    ensures
        timer_fits(RaftView::initial(peers, me), l),
        timer_fits(RaftView::initial(peers, me).recovered(data), l),
{
}

/// The timer suits a peer that is started again after a crash.
pub proof fn timer_fits_after_restart(s: RaftView, l: EventLoop)
    requires
        l.timeout_ev == TimeoutEv::Election,
    ensures
        timer_fits(s.restarted(), l),
{
}

/// Whatever event the loop takes from the queue or from the timer, the timer suits the role
/// afterwards. So a heartbeat is due only at a leader, and an election only at another peer.
pub proof fn timer_keeps_fitting(s: RaftView, l: EventLoop, ev: Event, res: ProcResult)
    requires
        timer_fits(s, l),
        s.ready_for(ev),
        s.step(ev).timed_as(res),
        ev is Timeout ==> LoopAction::Handle(ev) == l.action(LoopEvent::TimerFired),
    ensures
        ev is Action ==> timer_fits(s.next(ev), l.after(LoopEvent::ActionHandled(res))),
        ev is Timeout ==> timer_fits(s.next(ev), l.after(LoopEvent::TimeoutHandled(res))),
{
}

/// A peer that is told to end does so: the loop finishes and never runs again.
pub proof fn killed_peer_stops(s: RaftView, l: EventLoop, res: ProcResult)
    requires
        s.step(Event::Action(ActionEv::Killed)).timed_as(res),
    ensures
        l.action(LoopEvent::ActionHandled(res)) == LoopAction::Finish,
        !l.after(LoopEvent::ActionHandled(res)).running,
{
}

/// A loop that has stopped stays so, and finishes whenever it is woken.
pub proof fn stopped_loop_stays_stopped(l: EventLoop, ev: LoopEvent)
    requires
        !l.running,
    ensures
        !l.after(ev).running,
        l.after(ev).action(LoopEvent::Woken) == LoopAction::Finish,
{
}

/// Nothing but [`ActionEv::Killed`] stops a peer.
pub proof fn only_kill_stops(s: RaftView, ev: Event)
    requires
        s.step(ev) == Step::Stop,
    ensures
        ev == Event::Action(ActionEv::Killed),
{
}

/// The queue goes before the timer: the timer is looked at only when the queue is empty.
pub proof fn queue_goes_first(l: EventLoop, ev: LoopEvent)
    requires
        l.action(ev) == LoopAction::PollTimer,
    ensures
        ev == LoopEvent::QueueEmpty,
{
}

/// What is handled decides on the timer. A result that names a duration and a kind has the timer
/// set to just that duration, whatever the kind, and whether an event from the queue or a timeout
/// was handled; from then on the end of the timer is of that kind.
pub proof fn timer_is_set_as_demanded(l: EventLoop, dur: u64, kind: TimeoutEv)
    ensures
        ({
            let res = ProcResult::UpdateTimeout(dur, kind);
            let t = l.after(LoopEvent::ActionHandled(res));
            &&& l.action(LoopEvent::ActionHandled(res)) == LoopAction::ResetTimer(dur)
            &&& l.action(LoopEvent::TimeoutHandled(res)) == LoopAction::ResetTimer(dur)
            &&& t == l.after(LoopEvent::TimeoutHandled(res))
            &&& t == EventLoop { timeout_ev: kind, ..l }
            &&& t.action(LoopEvent::TimerFired) == LoopAction::Handle(Event::Timeout(kind))
        }),
{
}

/// Without such a result, the timer runs on after an event from the queue; after a timeout it is
/// set to the duration that it had at first, and so is the new timer that replaces a broken one.
/// No other word makes the loop touch the timer, and none changes the kind of the timer or that
/// first duration.
pub proof fn timer_is_left_alone_otherwise(l: EventLoop, ev: LoopEvent, dur: u64)
    ensures
        l.action(LoopEvent::TimeoutHandled(ProcResult::GoOn)) == LoopAction::ResetTimer(
            l.default_dur,
        ),
        l.action(LoopEvent::TimerFailed) == LoopAction::NewTimer(l.default_dur),
        l.action(ev) == LoopAction::ResetTimer(dur) ==> {
            ||| ev matches LoopEvent::ActionHandled(ProcResult::UpdateTimeout(d, _)) && d == dur
            ||| ev matches LoopEvent::TimeoutHandled(ProcResult::UpdateTimeout(d, _)) && d == dur
            ||| ev == LoopEvent::TimeoutHandled(ProcResult::GoOn) && dur == l.default_dur
        },
        l.action(ev) == LoopAction::NewTimer(dur) ==> ev == LoopEvent::TimerFailed && dur
            == l.default_dur,
        l.after(ev).default_dur == l.default_dur,
        !(ev matches LoopEvent::ActionHandled(ProcResult::UpdateTimeout(_, _))) && !(
        ev matches LoopEvent::TimeoutHandled(ProcResult::UpdateTimeout(_, _)))
            ==> l.after(ev).timeout_ev == l.timeout_ev,
{
}

/// How a loop goes round while it runs. It looks into the queue when it is woken, when the timer
/// is set, and when an event is handled that leaves the timer alone. An event from the queue goes
/// to the peer. With the queue empty, the loop looks at the timer. If that has run out, the peer
/// is told, and if it still runs, the loop sleeps. The loop ends with its queue, and when it is
/// told to stop.
pub proof fn loop_goes_round(l: EventLoop, ev: ActionEv)
    requires
        l.running,
    ensures
        l.action(LoopEvent::Woken) == LoopAction::PollQueue,
        l.action(LoopEvent::TimerSet) == LoopAction::PollQueue,
        l.action(LoopEvent::ActionHandled(ProcResult::GoOn)) == LoopAction::PollQueue,
        l.action(LoopEvent::Received(ev)) == LoopAction::Handle(Event::Action(ev)),
        l.action(LoopEvent::QueueEmpty) == LoopAction::PollTimer,
        l.action(LoopEvent::TimerFired) == LoopAction::Handle(Event::Timeout(l.timeout_ev)),
        l.action(LoopEvent::TimerPending) == LoopAction::Sleep,
        l.action(LoopEvent::QueueClosed) == LoopAction::Finish,
        l.action(LoopEvent::ActionHandled(ProcResult::Stop)) == LoopAction::Finish,
        l.action(LoopEvent::TimeoutHandled(ProcResult::Stop)) == LoopAction::Finish,
{
}

/// A loop runs on until it is told to stop. As long as it runs, it ends only with its queue.
pub proof fn loop_runs_until_stopped(l: EventLoop, ev: LoopEvent)
    requires
        l.running,
    ensures
        l.after(ev).running <==> ev != LoopEvent::ActionHandled(ProcResult::Stop) && ev
            != LoopEvent::TimeoutHandled(ProcResult::Stop),
        l.action(ev) == LoopAction::Finish <==> !l.after(ev).running || ev
            == LoopEvent::QueueClosed,
{
}

/// A loop that has stopped ends when it is woken and when its timer is set, and does not look into
/// the queue.
pub proof fn stopped_loop_ends(l: EventLoop)
    requires
        !l.running,
    ensures
        l.action(LoopEvent::Woken) == LoopAction::Finish,
        l.action(LoopEvent::TimerSet) == LoopAction::Finish,
        l.action(LoopEvent::ActionHandled(ProcResult::GoOn)) == LoopAction::Finish,
{
}

/// How a command gets to the peer: a call at a node that takes itself for the leader has the
/// command encoded, hands just that encoding to the peer as a new entry, waits for the answer, and
/// returns it.
pub proof fn command_is_handed_to_the_peer(
    node: Node,
    command: Vec<u8>,
    answer: Result<(u64, u64), Error>,
)
    ensures
        node.is_leader <==> node.start_action(StartEvent::Called) == StartAction::Encode,
        node.start_action(StartEvent::Encoded(Some(command))) == StartAction::Send(
            ActionEv::NewEntry(command),
        ),
        node.start_action(StartEvent::Sent(true)) == StartAction::Await,
        node.start_action(StartEvent::Answered(Some(answer))) == StartAction::Return(answer),
{
}

/// What a call of [`Node::start`] returns: [`Error::NotLeader`] at a peer that is not the leader
/// or has gone away, [`Error::Encode`] for a command without an encoding, and otherwise what
/// the peer answers.
pub proof fn start_returns_gracefully(node: Node, answer: Result<(u64, u64), Error>)
    ensures
        !node.is_leader ==> node.start_action(StartEvent::Called) == StartAction::Return(
            Err(Error::NotLeader),
        ),
        node.start_action(StartEvent::Encoded(None)) == StartAction::Return(Err(Error::Encode)),
        node.start_action(StartEvent::Sent(false)) == StartAction::Return(Err(Error::NotLeader)),
        node.start_action(StartEvent::Answered(None)) == StartAction::Return(
            Err(Error::NotLeader),
        ),
        node.start_action(StartEvent::Answered(Some(answer))) == StartAction::Return(answer),
{
}

} // verus!
