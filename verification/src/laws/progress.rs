//! That what can be committed is committed, and that what is committed reaches the service.
use vstd::prelude::*;

use crate::event::{ActionEv, Event, SendsView, Step};
use crate::laws::run::Run;
use crate::model::RaftView;

verus! {

/// The peers other than `me` that hold the entry at `idx`, by what their match indices say.
pub open spec fn holding(me: usize, match_index: Seq<usize>, idx: usize) -> Set<int> {
    Set::new(|i: int| 0 <= i < match_index.len() && i != me && match_index[i] >= idx)
}

proof fn holding_is_counted(s: RaftView, idx: usize, n: int)
    requires
        0 <= n <= s.match_index.len(),
    ensures
        holding(s.me, s.match_index.take(n), idx).finite(),
        holding(s.me, s.match_index.take(n), idx).len() == s.acks(idx, n),
    decreases n,
{
    let all = holding(s.me, s.match_index.take(n), idx);
    if n == 0 {
        assert(all =~= Set::empty());
    } else {
        holding_is_counted(s, idx, n - 1);
        let fewer = holding(s.me, s.match_index.take(n - 1), idx);
        if n - 1 != s.me && s.match_index[n - 1] >= idx {
            assert(all =~= fewer.insert(n - 1));
        } else {
            assert(all =~= fewer);
        }
    }
}

/// An entry is committed just if it lies beyond the commit index, is of the current term, and is
/// held by some other peer and, with this one, by more than half of the peers. Then the commit
/// index is its index. Nothing else changes.
pub proof fn entry_is_committed_where_it_can_be(s: RaftView, idx: usize)
    requires
        s.valid(),
        s.commit_index < idx ==> idx <= s.log.len(),
    ensures
        ({
            let others = holding(s.me, s.match_index, idx);
            &&& others.finite()
            &&& s.commits(idx) <==> {
                &&& s.commit_index < idx
                &&& s.log[idx - 1].term == s.term
                &&& others.len() >= 1
                &&& 2 * (1 + others.len()) > s.peers
            }
            &&& s.commits(idx) ==> s.committed(idx) == RaftView { commit_index: idx, ..s }
            &&& !s.commits(idx) ==> s.committed(idx) == s
        }),
{
    holding_is_counted(s, idx, s.peers as int);
    assert(s.match_index.take(s.peers as int) =~= s.match_index);
}

/// When a peer has accepted entries up to `idx`, its match index rises to that, unless it is
/// there already, and its next index comes right behind. If the entry at the match index then
/// lies beyond the commit index, is of the current term, and is held by some other peer and by
/// more than half of the peers, it is committed at once, and the next entry goes to the service
/// unless one is on its way. Otherwise the commit index stays, and nothing goes to the service.
pub proof fn accepted_entry_is_committed_at_once(s: RaftView, id: usize, idx: usize)
    requires
        s.valid(),
        s.ready_for(Event::Action(ActionEv::UpdatePeer(s.term, id, Ok(idx)))),
    ensures
        ({
            let ev = Event::Action(ActionEv::UpdatePeer(s.term, id, Ok(idx)));
            let t = s.next(ev);
            let m = if s.match_index[id as int] > idx {
                s.match_index[id as int]
            } else {
                idx
            };
            let others = holding(s.me, t.match_index, m);
            let commit = {
                &&& s.commit_index < m
                &&& s.log[m - 1].term == s.term
                &&& others.len() >= 1
                &&& 2 * (1 + others.len()) > s.peers
            };
            &&& others.finite()
            &&& t.match_index[id as int] == m
            &&& t.next_index[id as int] == m + 1
            &&& t.match_index.len() == s.match_index.len()
            &&& t.next_index.len() == s.next_index.len()
            &&& forall|i: int|
                0 <= i < s.peers && i != id ==> {
                    &&& #[trigger] t.match_index[i] == s.match_index[i]
                    &&& t.next_index[i] == s.next_index[i]
                }
            &&& commit ==> t.commit_index == m
            &&& !commit ==> t.commit_index == s.commit_index
            &&& commit && m > s.last_applied && !s.applying ==> {
                &&& t.applying
                &&& s.effects(ev).apply matches Some(msg) && {
                    &&& msg.command_valid
                    &&& msg.command_index == s.last_applied + 1
                    &&& msg.command == s.log[s.last_applied as int].command
                }
            }
            &&& !(commit && m > s.last_applied && !s.applying) ==> {
                &&& t.applying == s.applying
                &&& s.effects(ev).apply is None
            }
            &&& t == RaftView {
                match_index: t.match_index,
                next_index: t.next_index,
                commit_index: t.commit_index,
                applying: t.applying,
                ..s
            }
            &&& s.effects(ev).reply is None
            &&& s.effects(ev).sends == SendsView::Nothing
            &&& s.step(ev) == Step::GoOn
        }),
{
    let u = s.with_match(id as int, idx);
    let m = s.raised_match(id as int, idx);
    entry_is_committed_where_it_can_be(u, m);
}

/// Commitment happens when it may: where a majority holds an entry of the current term beyond the
/// commit index, the answer of the peer that completes the majority commits it, whatever else
/// stands in the log.
pub proof fn majority_commits(s: RaftView, id: usize, idx: usize, voters: Set<int>)
    requires
        s.valid(),
        s.me < s.peers,
        id < s.peers,
        id != s.me,
        s.match_index[id as int] <= idx,
        s.commit_index < idx <= s.log.len(),
        s.log[idx - 1].term == s.term,
        voters.finite(),
        voters.contains(id as int),
        forall|i: int| #[trigger]
            voters.contains(i) ==> 0 <= i < s.peers && i != s.me && (i == id || s.match_index[i]
                >= idx),
        2 * (1 + voters.len()) > s.peers,
    ensures
        ({
            let t = s.next(Event::Action(ActionEv::UpdatePeer(s.term, id, Ok(idx))));
            &&& t.commit_index == idx
            &&& idx > s.last_applied ==> t.applying
        }),
{
    let t = s.next(Event::Action(ActionEv::UpdatePeer(s.term, id, Ok(idx))));
    accepted_entry_is_committed_at_once(s, id, idx);
    let others = holding(s.me, t.match_index, idx);
    assert(voters.subset_of(others));
    vstd::set_lib::lemma_len_subset(voters, others);
    assert(others.contains(id as int));
}

/// A peer that has refused makes its next index fall to the one it named, but not below 1, and
/// never makes it rise. Nothing else changes.
pub proof fn refusal_lowers_next_index(s: RaftView, id: usize, idx: usize)
    requires
        s.valid(),
        id < s.peers,
    ensures
        ({
            let ev = Event::Action(ActionEv::UpdatePeer(s.term, id, Err(idx)));
            let t = s.next(ev);
            let next = s.next_index[id as int];
            &&& s.ready_for(ev)
            &&& 1 <= idx <= next ==> t.next_index[id as int] == idx
            &&& idx > next && next >= 1 ==> t.next_index[id as int] == next
            &&& idx == 0 || next == 0 ==> t.next_index[id as int] == 1
            &&& t.next_index.len() == s.next_index.len()
            &&& forall|i: int|
                0 <= i < s.peers && i != id ==> #[trigger] t.next_index[i] == s.next_index[i]
            &&& t == RaftView { next_index: t.next_index, ..s }
            &&& s.effects(ev).reply is None
            &&& s.effects(ev).apply is None
            &&& s.effects(ev).sends == SendsView::Nothing
            &&& s.step(ev) == Step::GoOn
        }),
{
}

/// What was answered in another term is of no account.
pub proof fn late_answer_changes_nothing(
    s: RaftView,
    term: u64,
    id: usize,
    res: Result<usize, usize>,
)
    requires
        term != s.term,
    ensures
        ({
            let ev = Event::Action(ActionEv::UpdatePeer(term, id, res));
            &&& s.ready_for(ev)
            &&& s.next(ev) == s
            &&& s.effects(ev).reply is None
            &&& s.effects(ev).apply is None
            &&& s.effects(ev).sends == SendsView::Nothing
            &&& s.step(ev) == Step::GoOn
        }),
{
}

/// The next entry goes to the service just if it is committed and none is on its way: the one
/// right behind those that the service has taken.
pub proof fn next_entry_goes_to_service(s: RaftView)
    ensures
        s.last_applied < s.commit_index && !s.applying ==> {
            &&& s.after_apply().applying
            &&& s.apply_msg() matches Some(msg) && {
                &&& msg.command_valid
                &&& msg.command == s.log[s.last_applied as int].command
                &&& msg.command_index == s.last_applied + 1
            }
        },
        s.last_applied >= s.commit_index || s.applying ==> {
            &&& s.after_apply().applying == s.applying
            &&& s.apply_msg() is None
        },
        s.after_apply() == (RaftView { applying: s.after_apply().applying, ..s }),
{
}

/// Once the service has taken a message, the next one follows at once, if its entry is committed.
pub proof fn taken_message_is_followed_by_next(s: RaftView)
    requires
        s.last_applied < usize::MAX,
    ensures
        ({
            let ev = Event::Action(ActionEv::ApplySuccess);
            let t = s.next(ev);
            &&& t.last_applied == s.last_applied + 1
            &&& t == RaftView { last_applied: t.last_applied, applying: t.applying, ..s }
            &&& s.last_applied + 1 < s.commit_index ==> {
                &&& t.applying
                &&& s.effects(ev).apply matches Some(msg) && {
                    &&& msg.command_valid
                    &&& msg.command == s.log[s.last_applied + 1].command
                    &&& msg.command_index == s.last_applied + 2
                }
            }
            &&& s.last_applied + 1 >= s.commit_index ==> {
                &&& !t.applying
                &&& s.effects(ev).apply is None
            }
            &&& s.effects(ev).reply is None
            &&& s.effects(ev).sends == SendsView::Nothing
            &&& s.step(ev) == Step::GoOn
        }),
{
}

/// A message that the service did not take goes to it once more, if its entry is committed.
pub proof fn message_is_tried_again(s: RaftView)
    ensures
        ({
            let ev = Event::Action(ActionEv::ApplyFailed);
            let t = s.next(ev);
            &&& t == RaftView { applying: t.applying, ..s }
            &&& s.last_applied < s.commit_index ==> {
                &&& t.applying
                &&& s.effects(ev).apply matches Some(msg) && {
                    &&& msg.command_valid
                    &&& msg.command == s.log[s.last_applied as int].command
                    &&& msg.command_index == s.last_applied + 1
                }
            }
            &&& s.last_applied >= s.commit_index ==> {
                &&& !t.applying
                &&& s.effects(ev).apply is None
            }
            &&& s.effects(ev).reply is None
            &&& s.effects(ev).sends == SendsView::Nothing
            &&& s.step(ev) == Step::GoOn
        }),
{
}

/// A peer starts to wait for the service only by handing a message over; and whenever it hands
/// one over, it waits for the service.
pub proof fn peer_waits_for_its_message(s: RaftView, ev: Event)
    ensures
        s.next(ev).applying && !s.applying ==> s.effects(ev).apply is Some,
        s.effects(ev).apply is Some ==> s.next(ev).applying,
        s.applying && s.next(ev).applying && (ev == Event::Action(ActionEv::ApplySuccess) || ev
            == Event::Action(ActionEv::ApplyFailed)) ==> s.effects(ev).apply is Some,
{
}

/// No committed entry is left lying: in every state that a peer gets into, through events and
/// crashes, either the service has taken all that is committed, or a message is on its way.
pub proof fn committed_entries_are_on_their_way(run: Run, peers: usize, me: usize, k: int)
    requires
        run.valid(),
        run.states[0] == RaftView::initial(peers, me),
        0 <= k <= run.turns.len(),
    ensures
        run.states[k].commit_index > run.states[k].last_applied ==> run.states[k].applying,
    decreases k,
{
    if k > 0 {
        committed_entries_are_on_their_way(run, peers, me, k - 1);
        assert(run.linked(k - 1));
    }
}

/// An event that raises the commit index beyond what the service has taken leaves the peer with a
/// message on its way; if there was none before, it is the one for the next entry.
pub proof fn raised_commit_index_is_acted_on(s: RaftView, ev: Event)
    requires
        s.next(ev).commit_index > s.commit_index,
        s.next(ev).commit_index > s.last_applied,
    ensures
        s.next(ev).applying,
        !s.applying ==> {
            &&& s.effects(ev).apply matches Some(msg) && {
                &&& msg.command_index == s.last_applied + 1
                &&& msg.command == s.next(ev).log[s.last_applied as int].command
            }
        },
{
}

} // verus!
