//! That the mathematical values stand for all that there is.
use vstd::prelude::*;

use crate::event::{Effects, Sends, SendsView};
use crate::peer::{ApplyMsg, Raft};
use crate::rounds::{AppendCall, HeartbeatCall, VoteCall};
use crate::saved::Saved;
use crate::service::{AppendEntriesArgs, Entry};

verus! {

/// A peer is seen as it is, with every entry of its log.
pub proof fn peer_is_seen_as_it_is(r: Raft)
    ensures
        r@.me == r.me,
        r@.peers == r.peers,
        r@.role == r.role,
        r@.is_leader == r.is_leader,
        r@.term == r.current_term,
        r@.voted_for == r.voted_for,
        r@.log.len() == r.log@.len(),
        forall|i: int| 0 <= i < r.log@.len() ==> #[trigger] r@.log[i] == r.log@[i]@,
        r@.commit_index == r.commit_index,
        r@.last_applied == r.last_applied,
        r@.applying == r.applying,
        r@.next_index == r.next_index@,
        r@.match_index == r.match_index@,
{
}

/// Entries and requests are seen as they are.
pub proof fn messages_are_seen_as_they_are(e: Entry, args: AppendEntriesArgs, msg: ApplyMsg)
    ensures
        e@.term == e.term,
        e@.index == e.index,
        e@.command == e.command@,
        args@.term == args.term,
        args@.leader_id == args.leader_id,
        args@.prev_log_index == args.prev_log_index,
        args@.prev_log_term == args.prev_log_term,
        args@.leader_commit == args.leader_commit,
        args@.entries.len() == args.entries@.len(),
        forall|i: int| 0 <= i < args.entries@.len() ==> #[trigger] args@.entries[i]
            == args.entries@[i]@,
        msg@.command_valid == msg.command_valid,
        msg@.command == msg.command@,
        msg@.command_index == msg.command_index,
{
}

/// What an event asks for is seen as it is.
pub proof fn effects_are_seen_as_they_are(effects: Effects)
    ensures
        effects@.reply == effects.reply,
        effects.apply is None <==> effects@.apply is None,
        effects.apply is Some ==> effects@.apply->0 == effects.apply->0@,
        effects.sends is Nothing <==> effects@.sends is Nothing,
        effects.sends matches Sends::Votes(call) ==> effects@.sends == SendsView::Votes(call@),
        effects.sends matches Sends::Heartbeats(call) ==> effects@.sends == SendsView::Heartbeats(
            call@,
        ),
{
}

/// Rounds of requests are seen as they are, with every request.
pub proof fn rounds_are_seen_as_they_are(votes: VoteCall, beat: HeartbeatCall, call: AppendCall)
    ensures
        votes@.args == votes.args,
        votes@.targets == votes.targets@,
        votes@.round == votes.round,
        beat@.round == beat.round,
        beat@.calls.len() == beat.calls@.len(),
        forall|i: int| 0 <= i < beat.calls@.len() ==> #[trigger] beat@.calls[i]
            == beat.calls@[i]@,
        call@.id == call.id,
        call@.args == call.args@,
{
}

/// What is saved is seen as it is.
pub proof fn saved_state_is_seen_as_it_is(s: Saved)
    ensures
        s@.term == s.term,
        s@.voted_for == s.voted_for,
        s@.log.len() == s.log@.len(),
        forall|i: int| 0 <= i < s.log@.len() ==> #[trigger] s@.log[i] == s.log@[i]@,
{
}

} // verus!
