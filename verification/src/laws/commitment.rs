//! When entries become committed.
use vstd::prelude::*;

use crate::event::{ActionEv, Event};
use crate::model::RaftView;
use crate::rounds::VoteRound;

verus! {

/// The peers that are known to hold the entry at `idx`: this one, and those whose match index
/// has reached it.
pub open spec fn holders(s: RaftView, idx: usize) -> Set<int> {
    Set::new(|i: int| 0 <= i < s.peers && (i == s.me || s.match_index[i] >= idx))
}

/// The peers among the first `n`, this one aside, that are known to hold the entry at `idx`.
spec fn other_holders(s: RaftView, idx: usize, n: int) -> Set<int> {
    Set::new(|i: int| 0 <= i < n && i != s.me && s.match_index[i] >= idx)
}

proof fn acks_count_holders(s: RaftView, idx: usize, n: int)
    requires
        0 <= n,
    ensures
        other_holders(s, idx, n).finite(),
        other_holders(s, idx, n).len() == s.acks(idx, n),
    decreases n,
{
    if n == 0 {
        assert(other_holders(s, idx, n) =~= Set::empty());
    } else {
        acks_count_holders(s, idx, n - 1);
        if n - 1 != s.me && s.match_index[n - 1] >= idx {
            assert(other_holders(s, idx, n) =~= other_holders(s, idx, n - 1).insert(n - 1));
        } else {
            assert(other_holders(s, idx, n) =~= other_holders(s, idx, n - 1));
        }
    }
}

/// What other peers accept raises the commit index only to an entry of the current term that a
/// majority of the peers is known to hold.
pub proof fn commitment_needs_majority(
    s: RaftView,
    term: u64,
    id: usize,
    res: Result<usize, usize>,
)
    requires
        s.valid(),
        s.me < s.peers,
        s.ready_for(Event::Action(ActionEv::UpdatePeer(term, id, res))),
        s.next(Event::Action(ActionEv::UpdatePeer(term, id, res))).commit_index != s.commit_index,
    ensures
        ({
            let t = s.next(Event::Action(ActionEv::UpdatePeer(term, id, res)));
            let c = t.commit_index;
            &&& s.commit_index < c <= t.log.len()
            &&& t.log[c - 1].term == t.term
            &&& holders(t, c).finite()
            &&& VoteRound::majority(holders(t, c).len() as int, t.peers as int)
        }),
{
    let t = s.next(Event::Action(ActionEv::UpdatePeer(term, id, res)));
    let c = t.commit_index;
    let m = s.with_match(id as int, res->Ok_0);
    acks_count_holders(m, c, m.peers as int);
    assert(holders(t, c) =~= other_holders(m, c, m.peers as int).insert(m.me as int));
}

/// The commit index never falls, but for one case: entries that are accepted although they end
/// before it, from a leader whose own commit index is beyond it. That case is left out.
pub proof fn commit_index_never_falls(s: RaftView, ev: Event)
    requires
        s.ready_for(ev),
        ev matches Event::Action(ActionEv::AppendEntries(args)) ==> {
            &&& args.leader_commit <= usize::MAX
            &&& s.commit_limit(args@) >= s.commit_index || args.leader_commit <= s.commit_index
                || s.append_conflict(args@) is Some
        },
    ensures
        s.next(ev).commit_index >= s.commit_index,
{
}

/// The index of the last entry that the service has taken never falls, and grows by one at a
/// time.
pub proof fn last_applied_never_falls(s: RaftView, ev: Event)
    requires
        s.ready_for(ev),
    ensures
        s.last_applied <= s.next(ev).last_applied <= s.last_applied + 1,
        s.next(ev).last_applied == s.last_applied + 1 <==> ev == Event::Action(
            ActionEv::ApplySuccess,
        ),
{
}

} // verus!
