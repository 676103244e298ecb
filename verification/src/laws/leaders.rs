//! Election safety: a term has at most one leader.
use vstd::prelude::*;

use crate::event::{ActionEv, Event, TimeoutEv};
use crate::laws::history::History;
use crate::laws::run::Turn;
use crate::peer::Role;
use crate::rounds::VoteRound;

verus! {

impl History {
    /// Whether peer `p` becomes the leader of `term` at step `k`.
    pub open spec fn elected(self, k: int, p: int, term: u64) -> bool {
        &&& self.handles(k, p, Event::Action(ActionEv::BecomeLeader(term)))
        &&& self.at(k, p).term == term
    }

    /// Whether peer `p` becomes the leader of `term` before time `k`.
    pub open spec fn elected_before(self, k: int, p: int, term: u64) -> bool {
        exists|j: int| j < k && #[trigger] self.elected(j, p, term)
    }

    /// The peers that grant peer `p` the votes by which it is elected.
    proof fn elected_by_majority(self, k: int, p: int, term: u64) -> (granted: Set<int>)
        requires
            self.valid(),
            0 <= p < self.peers(),
            self.elected(k, p, term),
        ensures
            granted.finite(),
            VoteRound::majority((1 + granted.len()) as int, self.peers()),
            self.run_of(p).ever_votes(term, p as usize),
            forall|i: int| #[trigger]
                granted.contains(i) ==> 0 <= i < self.peers() && i != p && self.run_of(
                    i,
                ).ever_votes(term, p as usize),
    {
        assert(self.sound_step(k));
        let (start, granted) = choose|start: int, granted: Set<int>|
            self.at(start + 1, p).term == term && #[trigger] self.wins(k, p, start, granted);
        let args = self.at(start + 1, p).vote_args();
        self.one_peer_moves(start, p);
        self.peers_stay_valid(start, p);
        assert(self.run_of(p).votes(start, term, p as usize));
        assert forall|i: int| #[trigger] granted.contains(i) implies self.run_of(i).ever_votes(
            term,
            p as usize,
        ) by {
            let v = choose|v: int| start < v < k && #[trigger] self.grants(v, i, args);
            assert(self.run_of(i).votes(v, term, p as usize));
        }
        granted
    }

    /// Only one peer is elected in a term.
    pub proof fn one_peer_elected(self, i: int, j: int, p: int, q: int, term: u64)
        requires
            self.valid(),
            0 <= p < self.peers(),
            0 <= q < self.peers(),
            self.elected(i, p, term),
            self.elected(j, q, term),
        ensures
            p == q,
    {
        let a = self.elected_by_majority(i, p, term);
        let b = self.elected_by_majority(j, q, term);
        let runs = Seq::new(self.peers() as nat, |x: int| self.run_of(x));
        assert forall|x: int| 0 <= x < runs.len() implies (#[trigger] runs[x]).valid() by {
            self.runs_are_valid(x);
        }
        crate::laws::election::one_winner_per_term(runs, term, p as usize, a, q as usize, b);
    }

    /// A peer leads only in a term in which it was elected.
    pub proof fn leaders_are_elected(self, k: int, p: int)
        requires
            self.valid(),
            0 <= k <= self.end(),
            0 <= p < self.peers(),
            self.at(k, p).role == Role::Leader,
        ensures
            self.elected_before(k, p, self.at(k, p).term),
        decreases k,
    {
        if k == 0 {
            self.peers_stay_valid(0, p);
            assert(self.at(0, p).role == Role::Follower);
        } else {
            self.one_peer_moves(k - 1, p);
            assert(self.sound_step(k - 1));
            let term = self.at(k, p).term;
            if self.elected(k - 1, p, term) {
            } else {
                self.leaders_are_elected(k - 1, p);
                let j = choose|j: int| j < k - 1 && #[trigger] self.elected(j, p, term);
                assert(self.elected(j, p, term));
            }
        }
    }

    /// Election safety: two peers never lead in the same term, not even at different times.
    pub proof fn one_leader_per_term(self, i: int, j: int, p: int, q: int)
        requires
            self.valid(),
            0 <= i <= self.end(),
            0 <= j <= self.end(),
            0 <= p < self.peers(),
            0 <= q < self.peers(),
            self.at(i, p).role == Role::Leader,
            self.at(j, q).role == Role::Leader,
            self.at(i, p).term == self.at(j, q).term,
        ensures
            p == q,
    {
        let term = self.at(i, p).term;
        self.leaders_are_elected(i, p);
        self.leaders_are_elected(j, q);
        let a = choose|a: int| a < i && #[trigger] self.elected(a, p, term);
        let b = choose|b: int| b < j && #[trigger] self.elected(b, q, term);
        self.one_peer_elected(a, b, p, q, term);
    }

    /// What a peer receives in a term was sent by the one that is elected in it.
    pub proof fn senders_are_elected(self, sent: int, l: int)
        requires
            self.valid(),
            0 <= l < self.peers(),
            self.handles(sent, l, Event::Timeout(TimeoutEv::Heartbeat)),
        ensures
            self.elected_before(sent, l, self.at(sent, l).term),
            forall|id: int|
                0 <= id < self.peers() && id != l ==> #[trigger] self.at(
                    sent,
                    l,
                ).heartbeat_ready(id),
    {
        self.one_peer_moves(sent, l);
        self.peers_stay_valid(sent, l);
        self.leaders_are_elected(sent, l);
    }

    /// While a peer is in a term in which it is ever elected, its log only grows.
    pub proof fn elected_log_grows(self, e: int, p: int, term: u64, i: int, j: int)
        requires
            self.valid(),
            0 <= p < self.peers(),
            self.elected(e, p, term),
            0 <= i <= j <= self.end(),
            self.at(i, p).term == term,
            self.at(j, p).term == term,
        ensures
            self.at(i, p).log.len() <= self.at(j, p).log.len(),
            self.at(j, p).log.take(self.at(i, p).log.len() as int) == self.at(i, p).log,
        decreases j - i,
    {
        let n = self.at(i, p).log.len() as int;
        if i == j {
            assert(self.at(j, p).log.take(n) =~= self.at(i, p).log);
        } else {
            self.terms_grow(i, j - 1, p);
            self.terms_grow(j - 1, j, p);
            self.elected_log_grows(e, p, term, i, j - 1);
            self.one_peer_moves(j - 1, p);
            assert(self.sound_step(j - 1));
            let s = self.at(j - 1, p);
            let t = self.at(j, p);
            match self.steps[j - 1].1 {
                Turn::Handle(Event::Action(ActionEv::AppendEntries(args))) => {
                    if self.steps[j - 1].0 == p && args.term == term {
                        let (from, l) = choose|from: int, l: int|
                            from < j - 1 && #[trigger] self.sends(from, l, p, args@);
                        self.one_peer_moves(from, p);
                        self.senders_are_elected(from, l);
                        let b = choose|b: int| b < from && #[trigger] self.elected(b, l, term);
                        self.one_peer_elected(e, b, p, l, term);
                    }
                    assert(t.log == s.log);
                },
                _ => {
                    assert(t.log.take(s.log.len() as int) =~= s.log);
                    assert(t.log.take(n) =~= s.log.take(n));
                },
            }
        }
    }

    /// In a term in which it is ever elected, any two logs of a peer agree as far as both go.
    pub proof fn elected_logs_agree(self, e: int, p: int, term: u64, i: int, j: int, n: int)
        requires
            self.valid(),
            0 <= p < self.peers(),
            self.elected(e, p, term),
            0 <= i <= self.end(),
            0 <= j <= self.end(),
            self.at(i, p).term == term,
            self.at(j, p).term == term,
            0 <= n <= self.at(i, p).log.len(),
            n <= self.at(j, p).log.len(),
        ensures
            self.at(i, p).log.take(n) == self.at(j, p).log.take(n),
    {
        let a = self.at(i, p).log;
        let b = self.at(j, p).log;
        if i <= j {
            self.elected_log_grows(e, p, term, i, j);
            assert(b.take(a.len() as int).take(n) =~= b.take(n));
        } else {
            self.elected_log_grows(e, p, term, j, i);
            assert(a.take(b.len() as int).take(n) =~= a.take(n));
        }
    }
}

} // verus!
