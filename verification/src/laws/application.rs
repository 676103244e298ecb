//! How committed commands reach the service, and how commands enter the log.
use vstd::prelude::*;

use crate::event::{ActionEv, Event};
use crate::laws::run::{Run, Turn};
use crate::model::RaftView;
use crate::node::Error;
use crate::service::EntryView;

verus! {

/// Only committed commands are handed to the service: a message carries the command of the
/// entry after the last one that the service has taken, and that entry is committed.
pub proof fn only_committed_commands_are_handed_over(s: RaftView, ev: Event)
    requires
        s.valid(),
        s.ready_for(ev),
        s.effects(ev).apply is Some,
    ensures
        ({
            let msg = s.effects(ev).apply->0;
            let t = s.next(ev);
            &&& msg.command_valid
            &&& msg.command_index == t.last_applied + 1 <= t.commit_index
            &&& t.last_applied < t.log.len()
            &&& msg.command == t.log[t.last_applied as int].command
            &&& t.applying
        }),
{
}

/// While a message is on its way, no other one is sent.
pub proof fn one_message_at_a_time(s: RaftView, ev: Event)
    requires
        s.applying,
        ev != Event::Action(ActionEv::ApplySuccess),
        ev != Event::Action(ActionEv::ApplyFailed),
    ensures
        s.effects(ev).apply is None,
        s.next(ev).applying,
        s.next(ev).last_applied == s.last_applied,
{
}

/// A message that the service did not take is sent again, as long as its entry is committed.
pub proof fn failed_message_is_sent_again(s: RaftView)
    requires
        s.valid(),
        s.applying,
        s.last_applied < s.commit_index,
        s.ready_for(Event::Action(ActionEv::ApplyFailed)),
    ensures
        ({
            let ev = Event::Action(ActionEv::ApplyFailed);
            &&& s.effects(ev).apply is Some
            &&& s.effects(ev).apply->0.command_index == s.last_applied + 1
            &&& s.next(ev) == s
        }),
{
}

/// The index of the last entry that the service has taken is the number of messages that it has
/// taken since the peer was last started.
pub proof fn last_applied_counts_messages(run: Run, peers: usize, me: usize, k: int)
    requires
        run.valid(),
        run.states[0] == RaftView::initial(peers, me),
        0 <= k <= run.turns.len(),
    ensures
        run.states[k].last_applied == run.taken(k),
    decreases k,
{
    if k > 0 {
        last_applied_counts_messages(run, peers, me, k - 1);
        assert(run.linked(k - 1));
    }
}

/// Commands are handed over in the order of the log, without gaps: each message carries the
/// index that follows the number of messages taken since the peer was last started.
pub proof fn commands_are_handed_over_in_order(
    run: Run,
    peers: usize,
    me: usize,
    k: int,
    ev: Event,
)
    requires
        run.valid(),
        run.states[0] == RaftView::initial(peers, me),
        0 <= k < run.turns.len(),
        run.turns[k] == Turn::Handle(ev),
        run.states[k].effects(ev).apply is Some,
    ensures
        run.states[k].effects(ev).apply->0.command_index == run.taken(k + 1) + 1,
{
    assert(run.linked(k));
    run.states_stay_valid(peers, me, k);
    only_committed_commands_are_handed_over(run.states[k], ev);
    last_applied_counts_messages(run, peers, me, k + 1);
}

/// A leader puts a command behind its log, under the index and the term that it answers with.
pub proof fn leader_appends_command(s: RaftView, command: Vec<u8>)
    requires
        s.valid(),
        s.is_leader,
    ensures
        ({
            let t = s.next(Event::Action(ActionEv::NewEntry(command)));
            let index = (s.log.len() + 1) as u64;
            &&& s.start_reply() == Ok::<(u64, u64), Error>((index, s.term))
            &&& t.log.len() == index
            &&& t.log[index - 1] == EntryView { term: s.term, index, command: command@ }
            &&& t.log.take(s.log.len() as int) == s.log
        }),
{
    let t = s.next(Event::Action(ActionEv::NewEntry(command)));
    assert(t.log.take(s.log.len() as int) =~= s.log);
}

/// A peer that is not the leader refuses a command and keeps its state.
pub proof fn follower_refuses_command(s: RaftView, command: Vec<u8>)
    requires
        !s.is_leader,
    ensures
        s.start_reply() == Err::<(u64, u64), Error>(Error::NotLeader),
        s.next(Event::Action(ActionEv::NewEntry(command))) == s,
{
}

} // verus!
