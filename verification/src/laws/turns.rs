//! What the other events do to a peer, and which events it can handle.
use vstd::prelude::*;

use crate::event::{ActionEv, Event, ProcResult, Reply, SendsView, Step, TimeoutEv};
use crate::model::RaftView;
use crate::node::Error;
use crate::peer::Role;
use crate::service::AppendEntriesArgs;

verus! {

/// A new peer follows, in term 0, with an empty log, and knows of no one. What was saved before a
/// crash gives it its term, its vote and its log, and nothing else.
pub proof fn new_peer_knows_nothing(peers: usize, me: usize, data: Seq<u8>)
    ensures
        ({
            let s = RaftView::initial(peers, me);
            let t = s.recovered(data);
            &&& s.me == me && s.peers == peers
            &&& s.role == Role::Follower && !s.is_leader
            &&& s.term == 0 && s.voted_for is None && s.log.len() == 0
            &&& s.commit_index == 0 && s.last_applied == 0 && !s.applying
            &&& s.next_index.len() == peers && s.match_index.len() == peers
            &&& forall|i: int| 0 <= i < peers ==> #[trigger] s.next_index[i] == 0
            &&& forall|i: int| 0 <= i < peers ==> #[trigger] s.match_index[i] == 0
            &&& t == RaftView { term: t.term, voted_for: t.voted_for, log: t.log, ..s }
        }),
{
}

/// What is saved of a peer is its term, its vote and its log, and a crash leaves it with these:
/// otherwise it is new, in its old place among as many peers.
pub proof fn crash_leaves_term_vote_and_log(s: RaftView)
    ensures
        ({
            let t = s.restarted();
            let new = RaftView::initial(s.peers, s.me);
            &&& s.saved().term == s.term
            &&& s.saved().voted_for == s.voted_for
            &&& s.saved().log == s.log
            &&& t == RaftView { term: s.term, voted_for: s.voted_for, log: s.log, ..new }
        }),
{
}

/// The winner of the election of its current term leads. It takes every peer to be up to date,
/// and none to be known to hold anything. It lets its heartbeat timer run.
pub proof fn winner_leads(s: RaftView)
    requires
        s.valid(),
    ensures
        ({
            let ev = Event::Action(ActionEv::BecomeLeader(s.term));
            let t = s.next(ev);
            &&& s.ready_for(ev)
            &&& t.role == Role::Leader && t.is_leader
            &&& t.next_index.len() == s.peers && t.match_index.len() == s.peers
            &&& forall|i: int|
                0 <= i < s.peers ==> #[trigger] t.next_index[i] == s.log.len() + 1
            &&& forall|i: int| 0 <= i < s.peers ==> #[trigger] t.match_index[i] == 0
            &&& t == RaftView {
                role: t.role,
                is_leader: t.is_leader,
                next_index: t.next_index,
                match_index: t.match_index,
                ..s
            }
            &&& t == s.leading()
            &&& s.step(ev) == Step::Rearm(TimeoutEv::Heartbeat)
            &&& s.effects(ev).reply is None
            &&& s.effects(ev).apply is None
            &&& s.effects(ev).sends == SendsView::Nothing
        }),
{
}

/// The winner of an election of another term comes too late.
pub proof fn late_winner_changes_nothing(s: RaftView, term: u64)
    requires
        term != s.term,
    ensures
        ({
            let ev = Event::Action(ActionEv::BecomeLeader(term));
            &&& s.ready_for(ev)
            &&& s.next(ev) == s
            &&& s.step(ev) == Step::GoOn
            &&& s.effects(ev).reply is None
            &&& s.effects(ev).apply is None
            &&& s.effects(ev).sends == SendsView::Nothing
        }),
{
}

/// A peer that hears of a higher term follows and lets its election timer run anew. Of another
/// term it takes no notice. Its own term stays as it is.
pub proof fn higher_term_makes_peer_follow(s: RaftView, term: u64)
    ensures
        ({
            let ev = Event::Action(ActionEv::FoundNewTerm(term));
            let t = s.next(ev);
            &&& s.ready_for(ev)
            &&& term > s.term ==> {
                &&& t.role == Role::Follower && !t.is_leader
                &&& t == RaftView { role: t.role, is_leader: t.is_leader, ..s }
                &&& s.step(ev) == Step::Rearm(TimeoutEv::Election)
            }
            &&& term <= s.term ==> t == s && s.step(ev) == Step::GoOn
            &&& s.effects(ev).reply is None
            &&& s.effects(ev).apply is None
            &&& s.effects(ev).sends == SendsView::Nothing
        }),
{
}

/// A peer takes up each role as it is: a follower does not lead and keeps the rest of its state,
/// a candidate is in the next term and has its own vote.
pub proof fn roles_are_taken_up(s: RaftView)
    requires
        s.term < u64::MAX,
    ensures
        s.following() == (RaftView { role: Role::Follower, is_leader: false, ..s }),
        s.campaigning().role == Role::Candidate,
        s.campaigning().term == s.term + 1,
        s.campaigning().voted_for == Some(s.me),
        s.campaigning() == (RaftView {
            role: s.campaigning().role,
            term: s.campaigning().term,
            voted_for: s.campaigning().voted_for,
            ..s
        }),
{
}

/// A command for a leader becomes the last entry of its log, in its current term and under the
/// next index, and that index and that term are the answer. A peer that does not lead answers
/// that it does not, and keeps its state. Nothing else comes of a command.
pub proof fn command_ends_the_log(s: RaftView, command: Vec<u8>)
    requires
        s.valid(),
    ensures
        ({
            let ev = Event::Action(ActionEv::NewEntry(command));
            let t = s.next(ev);
            &&& t == s.after_start(command@)
            &&& s.effects(ev).reply == Some(Reply::Start(s.start_reply()))
            &&& s.effects(ev).apply is None
            &&& s.effects(ev).sends == SendsView::Nothing
            &&& s.step(ev) == Step::GoOn
            &&& s.is_leader ==> {
                &&& s.start_reply() matches Ok((index, term)) && index == s.log.len() + 1 && term
                    == s.term
                &&& t.log.len() == s.log.len() + 1
                &&& forall|i: int| 0 <= i < s.log.len() ==> #[trigger] t.log[i] == s.log[i]
                &&& t.log.last().term == s.term
                &&& t.log.last().index == s.log.len() + 1
                &&& t.log.last().command == command@
                &&& t == RaftView { log: t.log, ..s }
            }
            &&& !s.is_leader ==> {
                &&& s.start_reply() == Err::<(u64, u64), Error>(Error::NotLeader)
                &&& t == s
            }
        }),
{
}

/// A peer that is no longer needed ends, and does nothing else.
pub proof fn end_is_all_that_a_kill_brings(s: RaftView)
    ensures
        ({
            let ev = Event::Action(ActionEv::Killed);
            &&& s.ready_for(ev)
            &&& s.next(ev) == s
            &&& s.step(ev) == Step::Stop
            &&& s.effects(ev).reply is None
            &&& s.effects(ev).apply is None
            &&& s.effects(ev).sends == SendsView::Nothing
        }),
{
}

/// Whoever waits for an answer gets one, and of the right kind; nobody else gets any.
pub proof fn requests_are_answered(s: RaftView, ev: Event)
    ensures
        ev matches Event::Action(ActionEv::RequestVote(_)) ==> s.effects(ev).reply matches Some(
            Reply::Vote(_),
        ),
        ev matches Event::Action(ActionEv::AppendEntries(_)) ==> s.effects(ev).reply matches Some(
            Reply::Append(_),
        ),
        ev matches Event::Action(ActionEv::NewEntry(_)) ==> s.effects(ev).reply matches Some(
            Reply::Start(_),
        ),
        s.effects(ev).reply is Some ==> ev matches Event::Action(ActionEv::RequestVote(_)) || ev
            matches Event::Action(ActionEv::AppendEntries(_)) || ev matches Event::Action(
            ActionEv::NewEntry(_),
        ),
{
}

/// A state is valid as soon as it has one index of each kind for each peer, and a log whose length
/// leaves room for one more index.
pub proof fn countable_states_are_valid(s: RaftView)
    ensures
        s.valid() <==> s.next_index.len() == s.peers && s.match_index.len() == s.peers
            && s.log.len() < usize::MAX,
        s.apply_ready() <==> (s.last_applied < s.commit_index && !s.applying ==> s.last_applied
            < s.log.len()),
{
}

/// Entries can be handled unless the log would grow beyond what can be counted, or the entry that
/// goes to the service next would not be there.
pub proof fn entries_can_be_handled(s: RaftView, args: AppendEntriesArgs)
    requires
        s.valid(),
    ensures
        ({
            let t = s.after_append(args@);
            s.ready_for(Event::Action(ActionEv::AppendEntries(args))) <==> args.term < s.term || {
                &&& t.log.len() < usize::MAX
                &&& t.commit_index > s.last_applied && !s.applying ==> s.last_applied
                    < t.log.len()
            }
        }),
{
}

/// What a peer has answered can be handled if there is such a peer, and if an index that it has
/// accepted and that lies beyond the commit index lies within the log.
pub proof fn answers_can_be_handled(s: RaftView, id: usize, idx: usize)
    requires
        s.valid(),
    ensures
        ({
            let m = if id < s.peers && s.match_index[id as int] > idx {
                s.match_index[id as int]
            } else {
                idx
            };
            &&& s.ready_for(Event::Action(ActionEv::UpdatePeer(s.term, id, Ok(idx)))) <==> {
                &&& id < s.peers
                &&& m < usize::MAX
                &&& m > s.commit_index ==> m <= s.log.len()
            }
            &&& s.ready_for(Event::Action(ActionEv::UpdatePeer(s.term, id, Err(idx)))) <==> id
                < s.peers
        }),
{
}

/// A command can be handled unless the log would grow beyond what can be counted; a message that
/// is taken or not, unless the entry that goes to the service next is not there; the end of the
/// election timer, unless there is no next term; the end of the heartbeat timer, at a leader
/// whose next index for every other peer lies within the log or right behind it.
pub proof fn other_events_can_be_handled(s: RaftView, command: Vec<u8>)
    requires
        s.valid(),
    ensures
        s.ready_for(Event::Action(ActionEv::NewEntry(command))) <==> !s.is_leader || s.log.len() + 1
            < usize::MAX,
        s.ready_for(Event::Action(ActionEv::ApplySuccess)) <==> {
            &&& s.last_applied < usize::MAX
            &&& s.last_applied + 1 < s.commit_index ==> s.last_applied + 1 < s.log.len()
        },
        s.ready_for(Event::Action(ActionEv::ApplyFailed)) <==> (s.last_applied < s.commit_index
            ==> s.last_applied < s.log.len()),
        s.ready_for(Event::Timeout(TimeoutEv::Election)) <==> s.term < u64::MAX,
        s.ready_for(Event::Timeout(TimeoutEv::Heartbeat)) ==> s.role == Role::Leader && forall|
            id: int,
        |
            0 <= id < s.peers && id != s.me ==> 1 <= (#[trigger] s.next_index[id]) <= s.log.len()
                + 1 && s.match_index[id] < usize::MAX,
        s.role == Role::Leader && (forall|id: int|
            0 <= id < s.peers && id != s.me ==> 1 <= (#[trigger] s.next_index[id]) <= s.log.len()
                + 1 && s.match_index[id] < usize::MAX) ==> s.ready_for(
            Event::Timeout(TimeoutEv::Heartbeat),
        ),
{
    let ev = Event::Timeout(TimeoutEv::Heartbeat);
    if s.ready_for(ev) {
        assert forall|id: int| 0 <= id < s.peers && id != s.me implies 1 <= (
        #[trigger] s.next_index[id]) <= s.log.len() + 1 && s.match_index[id] < usize::MAX by {
            assert(s.heartbeat_ready(id));
        }
    }
}

/// A peer waits at least 650 and less than 800 milliseconds for its leader, and lets 300 pass
/// between two heartbeats. A leader thus gets two of them through before anyone stands up
/// against it.
pub proof fn timers_run_long_enough(res: ProcResult)
    ensures
        Step::Rearm(TimeoutEv::Election).timed_as(res) <==> (res matches ProcResult::UpdateTimeout(
            dur,
            TimeoutEv::Election,
        ) && 650 <= dur < 800),
        Step::Rearm(TimeoutEv::Heartbeat).timed_as(res) <==> (res matches ProcResult::UpdateTimeout(
            dur,
            TimeoutEv::Heartbeat,
        ) && dur == 300),
        Step::GoOn.timed_as(res) <==> res == ProcResult::GoOn,
        Step::Stop.timed_as(res) <==> res == ProcResult::Stop,
        crate::timing::ELECTION_TIMEOUT_START == 650,
        crate::timing::ELECTION_TIMEOUT_END == 800,
        crate::timing::HEARTBEAT_TIMEOUT == 300,
        crate::event::APPLY_RETRY_DELAY == 70,
{
}

} // verus!
