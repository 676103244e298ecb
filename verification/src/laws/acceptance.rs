//! What becomes of the entries that a leader sends.
use vstd::prelude::*;

use crate::event::{ActionEv, Event, Reply, SendsView, Step, TimeoutEv};
use crate::model::RaftView;
use crate::peer::Role;
use crate::service::{AppendEntriesArgs, AppendEntriesArgsView, EntryConflict, EntryView};

verus! {

/// The run that starts at `i` ends at the first entry of another term.
proof fn run_ends_at_other_term(log: Seq<EntryView>, term: u64, i: int, n: int)
    requires
        0 <= i <= n <= log.len(),
    ensures
        ({
            let end = RaftView::run_end(log, term, i, n);
            &&& i <= end <= n
            &&& forall|j: int| i <= j < end ==> (#[trigger] log[j]).term == term
            &&& end < n ==> log[end].term != term
        }),
    decreases n - i,
{
    if i < n && log[i].term == term {
        run_ends_at_other_term(log, term, i + 1, n);
    }
}

/// An entry of `pre_term` at `pre_index` is there if the log has one there, and of that term.
/// Index 0 with term 0 stands for the start of the log, which is always there.
///
/// Where it is not there, it is said where to go on. Beyond the end of the log, that is right
/// behind the log. At an entry of another term, that term is named, and the index after the first
/// entry of the log that is not of that term; or 1, if there is none before.
pub proof fn conflict_tells_where_to_go_on(s: RaftView, pre_index: usize, pre_term: u64)
    requires
        s.valid(),
    ensures
        s.conflict(pre_index, pre_term) is None <==> pre_index == 0 && pre_term == 0 || 1
            <= pre_index <= s.log.len() && s.log[pre_index - 1].term == pre_term,
        pre_index == 0 && pre_term != 0 ==> s.conflict(pre_index, pre_term) == Some(
            EntryConflict { log_index: 0, log_term: 0 },
        ),
        s.conflict(pre_index, pre_term) matches Some(c) ==> {
            &&& pre_index > s.log.len() ==> c.log_index == s.log.len() + 1 && c.log_term == 0
            &&& 1 <= pre_index <= s.log.len() ==> {
                &&& c.log_term == s.log[pre_index - 1].term
                &&& 1 <= c.log_index <= pre_index
                &&& forall|j: int|
                    0 <= j < c.log_index - 2 ==> (#[trigger] s.log[j]).term == c.log_term
                &&& c.log_index > 1 ==> s.log[c.log_index - 2].term != c.log_term
                &&& c.log_index == 1 ==> forall|j: int|
                    0 <= j < pre_index ==> (#[trigger] s.log[j]).term == c.log_term
            }
        },
{
    if 1 <= pre_index <= s.log.len() {
        let term = s.log[pre_index - 1].term;
        run_ends_at_other_term(s.log, term, 0, pre_index - 1);
    }
}

/// Entries are accepted just if the term of their leader is not behind and the entry that
/// precedes them is there. The answer carries the term from before. Where they are refused
/// because of the term, the answer names no index.
pub proof fn entries_are_accepted_where_they_follow(s: RaftView, args: AppendEntriesArgsView)
    requires
        s.valid(),
    ensures
        ({
            let prev = args.prev_log_index as usize;
            let reply = s.append_reply(args);
            &&& reply.term == s.term
            &&& reply.conflict is None <==> args.term >= s.term && (prev == 0
                && args.prev_log_term == 0 || 1 <= prev <= s.log.len() && s.log[prev - 1].term
                == args.prev_log_term)
            &&& args.term < s.term ==> reply.conflict == Some(
                EntryConflict { log_index: 0, log_term: 0 },
            )
            &&& args.term >= s.term ==> reply.conflict == s.conflict(prev, args.prev_log_term)
        }),
{
    conflict_tells_where_to_go_on(s, args.prev_log_index as usize, args.prev_log_term);
}

/// A refused request changes nothing. An accepted one puts the peer into the term of the leader.
/// If the log has an entry of the same term in the place of the last of the new ones, or if there
/// are none, the log stays as it is. Otherwise it ends with the new entries, right behind the one
/// that precedes them, and what stood before them stays.
pub proof fn accepted_entries_end_the_log(s: RaftView, args: AppendEntriesArgsView)
    requires
        s.valid(),
    ensures
        ({
            let t = s.after_append(args);
            let prev = args.prev_log_index as usize;
            let n = args.entries.len();
            let last = args.entries[n - 1].index as usize;
            let there = n == 0 || last == 0 && args.entries[n - 1].term == 0 || 1 <= last
                <= s.log.len() && s.log[last - 1].term == args.entries[n - 1].term;
            &&& s.append_reply(args).conflict is Some ==> t == s
            &&& s.append_reply(args).conflict is None ==> {
                &&& t.term == args.term
                &&& there ==> t.log == s.log
                &&& !there ==> {
                    &&& t.log.len() == prev + n
                    &&& forall|i: int| 0 <= i < prev ==> #[trigger] t.log[i] == s.log[i]
                    &&& forall|i: int| 0 <= i < n ==> #[trigger] t.log[prev + i] == args.entries[i]
                }
                &&& t == RaftView {
                    term: t.term,
                    log: t.log,
                    commit_index: t.commit_index,
                    ..s
                }
            }
        }),
{
    let prev = args.prev_log_index as usize;
    let n = args.entries.len();
    conflict_tells_where_to_go_on(s, prev, args.prev_log_term);
    if n > 0 {
        let last = args.entries[n - 1];
        conflict_tells_where_to_go_on(s, last.index as usize, last.term);
        let t = s.after_append(args);
        if s.append_reply(args).conflict is None && s.replaces(args) {
            assert forall|i: int| 0 <= i < n implies #[trigger] t.log[prev + i]
                == args.entries[i] by {}
        }
    }
}

/// An accepted request moves the commit index only if the leader's is beyond it. It then becomes
/// the leader's, but goes no further than the request vouches for: up to the entry that precedes
/// the new ones, and beyond it over the new ones if the log has held them before.
pub proof fn commit_index_follows_leader(s: RaftView, args: AppendEntriesArgsView)
    requires
        s.valid(),
        s.append_reply(args).conflict is None,
    ensures
        ({
            let t = s.after_append(args);
            let prev = args.prev_log_index as usize;
            let n = args.entries.len();
            let last = args.entries[n - 1].index as usize;
            let there = n == 0 || last == 0 && args.entries[n - 1].term == 0 || 1 <= last
                <= s.log.len() && s.log[last - 1].term == args.entries[n - 1].term;
            let limit = if there {
                prev + n
            } else {
                prev as int
            };
            &&& args.leader_commit <= s.commit_index ==> t.commit_index == s.commit_index
            &&& args.leader_commit > s.commit_index && args.leader_commit as usize <= limit
                ==> t.commit_index == args.leader_commit as usize
            &&& args.leader_commit > s.commit_index && args.leader_commit as usize > limit
                ==> t.commit_index == limit
        }),
{
    let n = args.entries.len();
    if n > 0 {
        let last = args.entries[n - 1];
        conflict_tells_where_to_go_on(s, last.index as usize, last.term);
    }
}

/// A peer that gets entries of a leader whose term is not behind answers them, follows, and lets
/// its election timer run anew, whether or not it accepts them. If entries are then committed
/// that the service has not got, and none is on its way, it hands the next one over at once.
pub proof fn entries_of_leader_are_taken_up(s: RaftView, args: AppendEntriesArgs)
    requires
        args.term >= s.term,
    ensures
        ({
            let ev = Event::Action(ActionEv::AppendEntries(args));
            let t = s.next(ev);
            let u = s.after_append(args@);
            &&& t.role == Role::Follower
            &&& !t.is_leader
            &&& t.term == u.term
            &&& t.log == u.log
            &&& t.commit_index == u.commit_index
            &&& t == RaftView {
                role: t.role,
                is_leader: t.is_leader,
                term: t.term,
                log: t.log,
                commit_index: t.commit_index,
                applying: t.applying,
                ..s
            }
            &&& s.step(ev) == Step::Rearm(TimeoutEv::Election)
            &&& s.effects(ev).reply == Some(Reply::Append(s.append_reply(args@)))
            &&& s.effects(ev).sends == SendsView::Nothing
            &&& t.commit_index > s.last_applied && !s.applying ==> {
                &&& t.applying
                &&& s.effects(ev).apply matches Some(msg) && {
                    &&& msg.command_valid
                    &&& msg.command_index == s.last_applied + 1
                    &&& msg.command == t.log[s.last_applied as int].command
                }
            }
            &&& t.commit_index <= s.last_applied || s.applying ==> {
                &&& t.applying == s.applying
                &&& s.effects(ev).apply is None
            }
        }),
{
}

/// Entries of a leader whose term has passed are answered, and nothing else comes of them.
pub proof fn entries_of_stale_leader_are_only_answered(s: RaftView, args: AppendEntriesArgs)
    requires
        args.term < s.term,
    ensures
        ({
            let ev = Event::Action(ActionEv::AppendEntries(args));
            &&& s.next(ev) == s
            &&& s.step(ev) == Step::GoOn
            &&& s.effects(ev).reply == Some(Reply::Append(s.append_reply(args@)))
            &&& s.effects(ev).apply is None
            &&& s.effects(ev).sends == SendsView::Nothing
            &&& s.valid() ==> s.ready_for(ev)
        }),
{
}

/// An ordinary heartbeat tells a peer what is committed: where the log has the entry before it
/// and the leader has committed no more than that, the peer commits as much as the leader.
pub proof fn heartbeat_spreads_commitment(s: RaftView, args: AppendEntriesArgs)
    requires
        s.valid(),
        args.term >= s.term,
        args.entries@.len() == 0,
        1 <= args.prev_log_index <= s.log.len(),
        s.log[args.prev_log_index - 1].term == args.prev_log_term,
        s.commit_index <= args.leader_commit <= args.prev_log_index,
    ensures
        ({
            let t = s.next(Event::Action(ActionEv::AppendEntries(args)));
            &&& t.commit_index == args.leader_commit
            &&& t.log == s.log
            &&& t.commit_index > s.last_applied ==> t.applying
        }),
{
}

/// Every other peer gets a request with a heartbeat, in the order of their places. A request
/// tells which entry precedes what it carries, by its index and its term. It carries all entries
/// from the next index of the peer on, if the peer is known to hold all before them, and none
/// otherwise. The peer that sends stays as it is, and lets its heartbeat timer run anew.
pub proof fn heartbeat_carries_what_is_missing(s: RaftView)
    requires
        s.valid(),
        s.ready_for(Event::Timeout(TimeoutEv::Heartbeat)),
    ensures
        ({
            let ev = Event::Timeout(TimeoutEv::Heartbeat);
            &&& s.next(ev) == s
            &&& s.step(ev) == Step::Rearm(TimeoutEv::Heartbeat)
            &&& s.effects(ev).reply is None
            &&& s.effects(ev).apply is None
            &&& s.effects(ev).sends matches SendsView::Heartbeats(call) && {
                &&& call == s.heartbeat_call()
                &&& call.round.term == s.term
                &&& call.round.open
                &&& call.calls.len() == if s.me < s.peers {
                    s.peers - 1
                } else {
                    s.peers as int
                }
                &&& forall|i: int, j: int|
                    0 <= i < j < call.calls.len() ==> (#[trigger] call.calls[i]).id < (
                    #[trigger] call.calls[j]).id
                &&& forall|i: int|
                    0 <= i < call.calls.len() ==> {
                        let one = #[trigger] call.calls[i];
                        &&& one.id < s.peers
                        &&& one.id != s.me
                        &&& one.args == s.append_args(one.id as int)
                    }
            }
        }),
{
}

/// What a request for the peer `id` holds.
pub proof fn request_carries_what_is_missing(s: RaftView, id: int)
    requires
        s.valid(),
        0 <= id < s.peers,
        1 <= s.next_index[id] <= s.log.len() + 1,
        s.match_index[id] < usize::MAX,
    ensures
        ({
            let args = s.append_args(id);
            let next = s.next_index[id];
            &&& args.term == s.term
            &&& args.leader_id == s.me
            &&& args.leader_commit == s.commit_index
            &&& args.prev_log_index == next - 1
            &&& next == 1 ==> args.prev_log_term == 0
            &&& next > 1 ==> args.prev_log_term == s.log[next - 2].term
            &&& next <= s.match_index[id] + 1 ==> {
                &&& args.entries.len() == s.log.len() + 1 - next
                &&& forall|i: int|
                    0 <= i < args.entries.len() ==> #[trigger] args.entries[i] == s.log[next - 1
                        + i]
            }
            &&& next > s.match_index[id] + 1 ==> args.entries.len() == 0
            &&& s.heartbeat_ready(id)
        }),
{
}

} // verus!
