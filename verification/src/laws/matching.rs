//! Log matching: logs that share an entry share all that precedes it.
use vstd::prelude::*;

use crate::event::{ActionEv, Event};
use crate::laws::history::History;
use crate::laws::run::Turn;
use crate::model::RaftView;
use crate::service::EntryView;

verus! {

/// Whether the terms of a log never fall, and do not go beyond `term`.
pub open spec fn ordered(log: Seq<EntryView>, term: u64) -> bool {
    &&& forall|i: int, j: int| 0 <= i <= j < log.len() ==> log[i].term <= log[j].term
    &&& forall|i: int| 0 <= i < log.len() ==> (#[trigger] log[i]).term <= term
}

impl History {
    /// Every entry carries its index.
    pub proof fn logs_are_indexed(self, k: int, p: int)
        requires
            self.valid(),
            0 <= k <= self.end(),
            0 <= p < self.peers(),
        ensures
            crate::laws::replication::indexed(self.at(k, p).log),
        decreases k,
    {
        if k == 0 {
            assert(self.at(0, p) == RaftView::initial(self.peers() as usize, p as usize));
        } else {
            self.logs_are_indexed(k - 1, p);
            self.one_peer_moves(k - 1, p);
            self.peers_stay_valid(k - 1, p);
            assert(self.sound_step(k - 1));
            match self.steps[k - 1].1 {
                Turn::Handle(Event::Action(ActionEv::AppendEntries(args))) => {
                    if self.steps[k - 1].0 == p {
                        let (from, l) = choose|from: int, l: int|
                            from < k - 1 && #[trigger] self.sends(from, l, p, args@);
                        self.one_peer_moves(from, p);
                        self.logs_are_indexed(from, l);
                        self.peers_stay_valid(from, l);
                        self.senders_are_elected(from, l);
                        assert(self.at(from, l).heartbeat_ready(p));
                    }
                },
                _ => {},
            }
        }
    }

    /// What a peer does with entries: it keeps its log, or it takes over the log that the leader
    /// had when it sent them. `from` and `l` are the step at which they were sent and the
    /// leader.
    pub proof fn entries_bring_leader_log(self, k: int, p: int, from: int, l: int)
        requires
            self.valid(),
            0 <= p < self.peers(),
            0 <= k < self.end(),
            self.steps[k].0 == p,
            self.steps[k].1 matches Turn::Handle(Event::Action(ActionEv::AppendEntries(args)))
                && from < k && self.sends(from, l, p, args@),
            crate::laws::replication::logs_match(self.at(from, l).log, self.at(k, p).log),
        ensures
            0 <= l < self.peers(),
            self.at(k + 1, p).log == self.at(k, p).log || self.at(k + 1, p).log == self.at(
                from,
                l,
            ).log,
            self.accepts(k, p, l, from) ==> ({
                let idx = self.match_index(p, l, from);
                &&& idx <= self.at(from, l).log.len()
                &&& idx <= self.at(k + 1, p).log.len()
                &&& self.at(k + 1, p).log.take(idx) == self.at(from, l).log.take(idx)
                &&& self.at(k + 1, p).term == self.at(from, l).term
            }),
    {
        self.one_peer_moves(k, p);
        self.one_peer_moves(from, p);
        self.peers_stay_valid(k, p);
        self.peers_stay_valid(from, l);
        self.logs_are_indexed(from, l);
        self.senders_are_elected(from, l);
        let leader = self.at(from, l);
        let follower = self.at(k, p);
        assert(leader.heartbeat_ready(p));
        if follower.append_reply(leader.append_args(p)).conflict is None {
            crate::laws::replication::accepted_entries_agree(leader, follower, p as usize);
        }
    }

    /// Whether peer `w` is the author of the entry at position `x` of the log of peer `p` at time
    /// `k`: it was elected in the term of the entry at step `e`, and its log at time `a` in that
    /// term agrees up to the entry.
    pub open spec fn author(self, k: int, p: int, x: int, w: int, e: int, a: int) -> bool {
        let log = self.at(k, p).log;
        let term = log[x].term;
        &&& 0 <= w < self.peers()
        &&& e < a <= k
        &&& self.elected(e, w, term)
        &&& self.at(a, w).term == term
        &&& x < self.at(a, w).log.len()
        &&& self.at(a, w).log.take(x + 1) == log.take(x + 1)
    }

    /// Every entry comes from a leader that was elected in its term.
    pub proof fn entries_have_authors(self, k: int, p: int, x: int)
        requires
            self.valid(),
            0 <= k <= self.end(),
            0 <= p < self.peers(),
            0 <= x < self.at(k, p).log.len(),
        ensures
            exists|w: int, e: int, a: int| self.author(k, p, x, w, e, a),
        decreases k, 0int,
    {
        if k == 0 {
            assert(self.at(0, p) == RaftView::initial(self.peers() as usize, p as usize));
        } else {
            self.one_peer_moves(k - 1, p);
            self.peers_stay_valid(k - 1, p);
            assert(self.sound_step(k - 1));
            let j = k - 1;
            let s = self.at(j, p);
            let t = self.at(k, p);
            if t.log == s.log {
                self.entries_have_authors(k - 1, p, x);
                let (w, e, a) = choose|w: int, e: int, a: int| self.author(j, p, x, w, e, a);
                assert(self.author(k, p, x, w, e, a));
            } else {
                match self.steps[k - 1].1 {
                    Turn::Handle(Event::Action(ActionEv::AppendEntries(args))) => {
                        let (from, l) = choose|from: int, l: int|
                            from < k - 1 && #[trigger] self.sends(from, l, p, args@);
                        self.one_peer_moves(from, p);
                        self.logs_match(from, k - 1, l, p);
                        self.entries_bring_leader_log(k - 1, p, from, l);
                        self.entries_have_authors(from, l, x);
                        let (w, e, a) = choose|w: int, e: int, a: int|
                            self.author(from, l, x, w, e, a);
                        assert(self.author(k, p, x, w, e, a));
                    },
                    _ => {
                        assert(self.steps[k - 1].1 matches Turn::Handle(
                            Event::Action(ActionEv::NewEntry(_)),
                        ));
                        if x < s.log.len() {
                            self.entries_have_authors(k - 1, p, x);
                            let (w, e, a) = choose|w: int, e: int, a: int|
                                self.author(j, p, x, w, e, a);
                            assert(t.log.take(x + 1) =~= s.log.take(x + 1));
                            assert(self.author(k, p, x, w, e, a));
                        } else {
                            self.leaders_are_elected(k - 1, p);
                            let e = choose|e: int| e < j && #[trigger] self.elected(e, p, s.term);
                            assert(self.author(k, p, x, p, e, k));
                        }
                    },
                }
            }
        }
    }

    /// Log matching: any two logs, of any peers at any times, that have entries of the same term
    /// at the same index agree up to that index.
    pub proof fn logs_match(self, i: int, j: int, p: int, q: int)
        requires
            self.valid(),
            0 <= i <= self.end(),
            0 <= j <= self.end(),
            0 <= p < self.peers(),
            0 <= q < self.peers(),
        ensures
            crate::laws::replication::logs_match(self.at(i, p).log, self.at(j, q).log),
        decreases
                if i < j {
                    j
                } else {
                    i
                }, 1int,
    {
        let a = self.at(i, p).log;
        let b = self.at(j, q).log;
        assert forall|x: int|
            #![trigger a[x]]
            #![trigger b[x]]
            0 <= x < a.len() && x < b.len() && a[x].term == b[x].term implies a.take(x + 1)
            == b.take(x + 1) by {
            self.entries_have_authors(i, p, x);
            self.entries_have_authors(j, q, x);
            let (w, e, t) = choose|w: int, e: int, t: int| self.author(i, p, x, w, e, t);
            let (v, f, u) = choose|v: int, f: int, u: int| self.author(j, q, x, v, f, u);
            self.one_peer_elected(e, f, w, v, a[x].term);
            self.elected_logs_agree(e, w, a[x].term, t, u, x + 1);
        }
    }

    /// The terms of a log never fall, and do not go beyond the term of its peer.
    pub proof fn logs_are_ordered(self, k: int, p: int)
        requires
            self.valid(),
            0 <= k <= self.end(),
            0 <= p < self.peers(),
        ensures
            ordered(self.at(k, p).log, self.at(k, p).term),
        decreases k,
    {
        if k == 0 {
            assert(self.at(0, p) == RaftView::initial(self.peers() as usize, p as usize));
        } else {
            self.logs_are_ordered(k - 1, p);
            self.one_peer_moves(k - 1, p);
            self.terms_grow(k - 1, k, p);
            assert(self.sound_step(k - 1));
            match self.steps[k - 1].1 {
                Turn::Handle(Event::Action(ActionEv::AppendEntries(args))) => {
                    if self.steps[k - 1].0 == p {
                        let (from, l) = choose|from: int, l: int|
                            from < k - 1 && #[trigger] self.sends(from, l, p, args@);
                        self.one_peer_moves(from, p);
                        self.logs_match(from, k - 1, l, p);
                        self.entries_bring_leader_log(k - 1, p, from, l);
                        self.logs_are_ordered(from, l);
                    }
                },
                _ => {},
            }
        }
    }
}

} // verus!
