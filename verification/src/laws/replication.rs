//! How the log of a leader gets to the other peers.
use vstd::prelude::*;

use crate::event::{ActionEv, Event, Step, TimeoutEv};
use crate::model::RaftView;
use crate::peer::Role;
use crate::rounds::{AppendCallView, AppendRound};
use crate::service::{AppendEntriesArgs, AppendEntriesArgsView, AppendEntriesReply, EntryView};

verus! {

/// Whether every entry of the log carries its own index.
pub open spec fn indexed(log: Seq<EntryView>) -> bool {
    forall|k: int| 0 <= k < log.len() ==> (#[trigger] log[k]).index == k + 1
}

/// Whether the entries carry the indices that follow the one before them.
pub open spec fn entries_indexed(args: AppendEntriesArgsView) -> bool {
    forall|k: int|
        0 <= k < args.entries.len() ==> (#[trigger] args.entries[k]).index == args.prev_log_index
            + k + 1
}

/// The log matching property: where two logs have entries of the same term at the same index,
/// they agree up to that index.
pub open spec fn logs_match(a: Seq<EntryView>, b: Seq<EntryView>) -> bool {
    forall|k: int|
        #![trigger a[k]]
        #![trigger b[k]]
        0 <= k < a.len() && k < b.len() && a[k].term == b[k].term ==> a.take(k + 1) == b.take(k + 1)
}

/// A peer that believes it leads never removes or changes entries of its log: an event that
/// leaves it leader leaves its log a prefix of what it is then.
pub proof fn leader_only_appends(s: RaftView, ev: Event)
    requires
        s.next(ev).role == Role::Leader,
    ensures
        s.log.len() <= s.next(ev).log.len(),
        s.next(ev).log.take(s.log.len() as int) == s.log,
{
    assert(s.next(ev).log.take(s.log.len() as int) =~= s.log);
}

/// Entries from a leader of a term that has passed are refused, are answered with the current
/// term, and change nothing.
pub proof fn stale_leader_is_refused(s: RaftView, args: AppendEntriesArgs)
    requires
        args.term < s.term,
    ensures
        s.append_reply(args@).term == s.term,
        s.append_reply(args@).conflict is Some,
        s.next(Event::Action(ActionEv::AppendEntries(args))) == s,
        s.step(Event::Action(ActionEv::AppendEntries(args))) == Step::GoOn,
{
}

/// Entries that are refused change nothing in the log, in the term or in what is committed.
pub proof fn refused_entries_change_nothing(s: RaftView, args: AppendEntriesArgs)
    requires
        s.append_reply(args@).conflict is Some,
    ensures
        ({
            let t = s.next(Event::Action(ActionEv::AppendEntries(args)));
            &&& t.log == s.log
            &&& t.term == s.term
            &&& t.commit_index == s.commit_index
            &&& t.voted_for == s.voted_for
        }),
{
}

/// Entries keep their indices, whether they are accepted or not, and what an accepted request
/// commits lies within the log and within what the leader has committed. The indices of the
/// request have to fit into `usize`, as they always do where it has 64 bits.
pub proof fn entries_keep_indices(s: RaftView, args: AppendEntriesArgsView)
    requires
        indexed(s.log),
        entries_indexed(args),
        args.prev_log_index + args.entries.len() <= usize::MAX,
    ensures
        ({
            let t = s.after_append(args);
            &&& indexed(t.log)
            &&& s.append_reply(args).conflict is None && args.leader_commit > s.commit_index ==> {
                &&& t.commit_index <= args.leader_commit
                &&& t.commit_index <= t.log.len()
            }
        }),
{
    if args.entries.len() > 0 {
        assert(args.entries.last().index == args.prev_log_index + args.entries.len());
    }
}

/// A request that is accepted and comes again at once is accepted again, in its own term, and
/// changes neither the log nor the term nor the vote. Each time the log ends up with the last of
/// the entries in its place. The indices of the request have to fit into `usize`, as they always
/// do where it has 64 bits.
pub proof fn repeated_entries_change_nothing(s: RaftView, args: AppendEntriesArgsView)
    requires
        s.valid(),
        entries_indexed(args),
        args.prev_log_index + args.entries.len() <= usize::MAX,
        s.append_reply(args).conflict is None,
    ensures
        ({
            let t = s.after_append(args);
            let u = t.after_append(args);
            &&& t.append_reply(args) == (AppendEntriesReply { term: args.term, conflict: None })
            &&& u.log == t.log
            &&& u.term == t.term == args.term
            &&& u.voted_for == t.voted_for
            &&& t.voted_for == s.voted_for
            &&& args.entries.len() > 0 ==> {
                let last = args.entries.last();
                &&& last.index <= t.log.len()
                &&& t.log[last.index - 1].term == last.term
                &&& u.log[last.index - 1].term == last.term
            }
        }),
{
    let t = s.after_append(args);
    let prev = args.prev_log_index as int;
    if prev > 0 {
        assert(t.log[prev - 1] == s.log[prev - 1]);
    }
    if args.entries.len() > 0 {
        let n = args.entries.len() as int;
        assert(args.entries.last().index == prev + n);
        if s.replaces(args) {
            assert(t.log[prev + n - 1] == args.entries[n - 1]);
        }
    }
}

/// A leader that is refused because its term has passed learns of the higher term, and follows.
pub proof fn stale_leader_steps_down(leader: RaftView, follower: RaftView, id: usize)
    requires
        leader.term < follower.term,
    ensures
        ({
            let call = AppendCallView { id, args: leader.append_args(id as int) };
            let reply = follower.append_reply(call.args);
            let round = AppendRound { term: leader.term, open: true };
            let ev = round.report(call, Some(reply));
            &&& ev == Some(ActionEv::FoundNewTerm(follower.term))
            &&& leader.next(Event::Action(ev->0)).role == Role::Follower
            &&& !leader.next(Event::Action(ev->0)).is_leader
        }),
{
}

/// Every request of a heartbeat ends within the log of the leader.
pub proof fn heartbeat_stays_within_log(leader: RaftView, i: int)
    requires
        leader.valid(),
        leader.ready_for(Event::Timeout(TimeoutEv::Heartbeat)),
        0 <= i < leader.heartbeat_call().calls.len(),
    ensures
        leader.heartbeat_call().calls[i].match_index() <= leader.log.len(),
{
    let id = RaftView::others(leader.me, leader.peers as int)[i];
    assert(leader.heartbeat_ready(id as int));
}

/// A heartbeat holds a request for every other peer, and for no one else.
pub proof fn every_other_peer_gets_a_request(leader: RaftView, id: usize)
    ensures
        leader.heartbeat_call().calls.contains(
            AppendCallView { id, args: leader.append_args(id as int) },
        ) <==> id < leader.peers && id != leader.me,
        forall|i: int|
            0 <= i < leader.heartbeat_call().calls.len() ==> (
            #[trigger] leader.heartbeat_call().calls[i]).args == leader.append_args(
                leader.heartbeat_call().calls[i].id as int,
            ),
{
    let calls = leader.heartbeat_call().calls;
    let call = AppendCallView { id, args: leader.append_args(id as int) };
    if id < leader.peers && id != leader.me {
        if id < leader.me {
            assert(calls[id as int] == call);
        } else {
            assert(calls[id - 1] == call);
        }
    }
}

/// What a leader believes of a peer that has accepted its request is true: if the logs matched
/// before, the peer's log then agrees with the leader's up to the match index that the leader
/// takes note of. The log of the peer is then what it was or the leader's, so that it matches
/// the leader's log, and every log that matched both.
pub proof fn accepted_entries_agree(leader: RaftView, follower: RaftView, id: usize)
    requires
        leader.valid(),
        follower.valid(),
        id < leader.peers,
        leader.heartbeat_ready(id as int),
        indexed(leader.log),
        logs_match(leader.log, follower.log),
        follower.append_reply(leader.append_args(id as int)).conflict is None,
    ensures
        ({
            let call = AppendCallView { id, args: leader.append_args(id as int) };
            let after = follower.after_append(call.args);
            let idx = call.match_index();
            &&& idx <= leader.log.len()
            &&& idx <= after.log.len()
            &&& after.log.take(idx) == leader.log.take(idx)
            &&& after.log == follower.log || after.log == leader.log
            &&& logs_match(leader.log, after.log)
            &&& (AppendRound { term: leader.term, open: true }).report(
                call,
                Some(follower.append_reply(call.args)),
            ) == Some(ActionEv::UpdatePeer(leader.term, id, Ok(idx as usize)))
        }),
{
    let args = leader.append_args(id as int);
    let call = AppendCallView { id, args };
    let after = follower.after_append(args);
    let pre = leader.next_index[id as int] - 1;
    assert(args.prev_log_index as usize == pre);
    if pre > 0 {
        assert(leader.log[pre - 1].term == follower.log[pre - 1].term);
        assert(leader.log.take(pre) == follower.log.take(pre));
    } else {
        assert(leader.log.take(pre) =~= follower.log.take(pre));
    }
    if args.entries.len() > 0 {
        let n = leader.log.len() as int;
        assert(args.entries.last() == leader.log[n - 1]);
        assert(leader.log[n - 1].index == n);
        assert(leader.log.take(n) =~= leader.log);
        if follower.replaces(args) {
            assert(leader.log.take(pre) + leader.log.skip(pre) =~= leader.log);
            assert(after.log =~= leader.log);
        } else {
            assert(follower.log[n - 1].term == leader.log[n - 1].term);
        }
    }
}

/// Once a peer has accepted a request, the next one brings it all that it lacks: it carries every
/// entry after the match index.
pub proof fn acceptance_is_followed_by_entries(leader: RaftView, id: usize, idx: usize)
    requires
        leader.valid(),
        leader.ready_for(Event::Action(ActionEv::UpdatePeer(leader.term, id, Ok(idx)))),
        idx <= leader.log.len(),
        leader.match_index[id as int] <= leader.log.len(),
    ensures
        ({
            let t = leader.next(Event::Action(ActionEv::UpdatePeer(leader.term, id, Ok(idx))));
            let known = t.match_index[id as int];
            &&& known >= idx
            &&& t.heartbeat_ready(id as int)
            &&& t.append_args(id as int).prev_log_index == known
            &&& t.append_args(id as int).entries == t.log.skip(known as int)
        }),
{
}

/// What a peer commits on the word of a leader, the leader has committed, and the two logs agree
/// on it.
pub proof fn followers_commit_with_leader(leader: RaftView, follower: RaftView, id: usize)
    requires
        leader.valid(),
        follower.valid(),
        id < leader.peers,
        leader.heartbeat_ready(id as int),
        indexed(leader.log),
        logs_match(leader.log, follower.log),
        follower.after_append(leader.append_args(id as int)).commit_index != follower.commit_index,
    ensures
        ({
            let after = follower.after_append(leader.append_args(id as int));
            let c = after.commit_index;
            &&& c <= leader.commit_index
            &&& c <= leader.log.len()
            &&& c <= after.log.len()
            &&& after.log.take(c as int) == leader.log.take(c as int)
        }),
{
    accepted_entries_agree(leader, follower, id);
    let args = leader.append_args(id as int);
    let idx = (AppendCallView { id, args }).match_index();
    let after = follower.after_append(args);
    let c = after.commit_index as int;
    assert(c <= idx);
    assert(after.log.take(idx).take(c) =~= after.log.take(c));
    assert(leader.log.take(idx).take(c) =~= leader.log.take(c));
}

/// A new entry keeps the log of the leader matched with another log, as long as that one has no
/// entry of the leader's term in its place.
pub proof fn new_entry_keeps_logs_matched(s: RaftView, other: Seq<EntryView>, command: Vec<u8>)
    requires
        logs_match(s.log, other),
        other.len() > s.log.len() ==> other[s.log.len() as int].term != s.term,
    ensures
        logs_match(s.next(Event::Action(ActionEv::NewEntry(command))).log, other),
{
    let t = s.next(Event::Action(ActionEv::NewEntry(command)));
    assert forall|k: int|
        0 <= k < t.log.len() && k < other.len() && t.log[k].term
            == other[k].term implies t.log.take(k + 1) == other.take(k + 1) by {
        assert(k < s.log.len());
        assert(s.log[k].term == other[k].term);
        assert(t.log.take(k + 1) =~= s.log.take(k + 1));
    }
}

/// A peer that refuses a request although the leader's term is not behind makes the leader go
/// back: the next request starts at an earlier index, and can be made.
pub proof fn refusal_makes_leader_go_back(leader: RaftView, follower: RaftView, id: usize)
    requires
        leader.valid(),
        follower.valid(),
        id < leader.peers,
        leader.heartbeat_ready(id as int),
        leader.term >= follower.term,
        follower.append_reply(leader.append_args(id as int)).conflict is Some,
    ensures
        ({
            let call = AppendCallView { id, args: leader.append_args(id as int) };
            let round = AppendRound { term: leader.term, open: true };
            let ev = round.report(call, Some(follower.append_reply(call.args)));
            &&& ev is Some
            &&& leader.ready_for(Event::Action(ev->0))
            &&& leader.next(Event::Action(ev->0)).next_index[id as int]
                < leader.next_index[id as int]
            &&& leader.next(Event::Action(ev->0)).heartbeat_ready(id as int)
        }),
{
    let args = leader.append_args(id as int);
    let pre = leader.next_index[id as int] - 1;
    assert(args.prev_log_index as usize == pre);
    if pre > 0 && pre <= follower.log.len() {
        run_end_in_range(follower.log, follower.log[pre - 1].term, 0, pre - 1);
    }
}

proof fn run_end_in_range(log: Seq<EntryView>, term: u64, i: int, n: int)
    requires
        i <= n,
    ensures
        i <= RaftView::run_end(log, term, i, n) <= n,
    decreases n - i,
{
    if i < n && log[i].term == term {
        run_end_in_range(log, term, i + 1, n);
    }
}

/// A request from the start of the log is refused only because of its term.
pub proof fn request_from_start_is_accepted(leader: RaftView, follower: RaftView, id: usize)
    requires
        leader.next_index[id as int] == 1,
        leader.term >= follower.term,
    ensures
        follower.append_reply(leader.append_args(id as int)).conflict is None,
{
}

} // verus!
