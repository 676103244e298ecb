//! Leader completeness: what is committed stands in the logs of all later leaders.
use vstd::prelude::*;

use crate::event::{ActionEv, Event};
use crate::laws::history::History;
use crate::laws::run::Turn;
use crate::rounds::VoteRound;

verus! {

impl History {
    /// Whether at some time up to `k` peer `i` was in the term that peer `p` is in at time `k`,
    /// with a log that agrees with that of peer `p` up to index `m`.
    pub open spec fn held(self, k: int, p: int, i: int, m: int) -> bool {
        exists|a: int| #[trigger] self.held_at(a, k, p, i, m)
    }

    pub open spec fn held_at(self, a: int, k: int, p: int, i: int, m: int) -> bool {
        &&& 0 <= a <= k
        &&& self.at(a, i).term == self.at(k, p).term
        &&& m <= self.at(a, i).log.len()
        &&& m <= self.at(k, p).log.len()
        &&& self.at(a, i).log.take(m) == self.at(k, p).log.take(m)
    }

    /// What an elected peer knows of the others is true: each has held the entries up to its
    /// match index.
    pub proof fn match_index_is_true(self, k: int, p: int, i: int)
        requires
            self.valid(),
            0 <= k <= self.end(),
            0 <= p < self.peers(),
            0 <= i < self.peers(),
            i != p,
            self.elected_before(k, p, self.at(k, p).term),
        ensures
            self.at(k, p).match_index[i] > 0 ==> self.held(
                k,
                p,
                i,
                self.at(k, p).match_index[i] as int,
            ),
        decreases k,
    {
        let term = self.at(k, p).term;
        let e = choose|e: int| e < k && #[trigger] self.elected(e, p, term);
        let j = k - 1;
        self.one_peer_moves(j, p);
        self.peers_stay_valid(j, p);
        self.terms_grow(e, j, p);
        self.terms_grow(j, k, p);
        assert(self.sound_step(j));
        let s = self.at(j, p);
        let t = self.at(k, p);
        if !self.elected(j, p, term) {
            assert(e < j);
            self.match_index_is_true(j, p, i);
            self.elected_log_grows(e, p, term, j, k);
            if t.match_index[i] == s.match_index[i] {
                let m = s.match_index[i] as int;
                if m > 0 {
                    let a = choose|a: int| #[trigger] self.held_at(a, j, p, i, m);
                    assert(t.log.take(s.log.len() as int).take(m) =~= t.log.take(m));
                    assert(self.held_at(a, k, p, i, m));
                }
            } else if t.match_index[i] > 0 {
                self.match_is_held(j, p, i, e);
            }
        }
    }

    /// A match index that changes is one that the peer has just been told of.
    proof fn match_is_held(self, j: int, p: int, i: int, e: int)
        requires
            self.valid(),
            0 <= j < self.end(),
            0 <= p < self.peers(),
            0 <= i < self.peers(),
            i != p,
            self.elected(e, p, self.at(j, p).term),
            !self.elected(j, p, self.at(j, p).term),
            self.at(j + 1, p).term == self.at(j, p).term,
            self.at(j + 1, p).match_index[i] != self.at(j, p).match_index[i],
            self.at(j + 1, p).match_index[i] > 0,
        ensures
            self.held(j + 1, p, i, self.at(j + 1, p).match_index[i] as int),
    {
        let term = self.at(j, p).term;
        let k = j + 1;
        self.one_peer_moves(j, p);
        self.peers_stay_valid(j, p);
        assert(self.sound_step(j));
        match self.steps[j].1 {
            Turn::Handle(Event::Action(ActionEv::UpdatePeer(at_term, id, Ok(idx)))) => {
                let (sent, at) = choose|sent: int, at: int|
                    at < j && self.at(sent, p).term == at_term && idx == self.match_index(
                        id as int,
                        p,
                        sent,
                    ) && #[trigger] self.accepts(at, id as int, p, sent);
                assert(id == i);
                self.logs_match(sent, at, p, i);
                self.entries_bring_leader_log(at, i, sent, p);
                self.elected_log_grows(e, p, term, sent, k);
                let m = idx as int;
                assert(self.at(k, p).match_index[i] == m);
                assert(self.at(k, p).log.take(self.at(sent, p).log.len() as int).take(m)
                    =~= self.at(k, p).log.take(m));
                assert(self.held_at(at + 1, k, p, i, m));
            },
            _ => {
                assert(false);
            },
        }
    }

    /// Whether peer `p` commits entries at step `k` because a majority holds them.
    pub open spec fn commits(self, k: int, p: int) -> bool {
        &&& 0 <= k < self.end()
        &&& self.steps[k].0 == p
        &&& self.steps[k].1 matches Turn::Handle(Event::Action(ActionEv::UpdatePeer(_, _, _)))
        &&& self.at(k + 1, p).commit_index != self.at(k, p).commit_index
    }

    /// What is committed at step `k` has been held by a majority in the term of the peer that
    /// commits it.
    pub proof fn committed_is_held(self, k: int, p: int) -> (holders: Set<int>)
        requires
            self.valid(),
            0 <= p < self.peers(),
            self.commits(k, p),
        ensures
            ({
                let t = self.at(k + 1, p);
                &&& t.term == self.at(k, p).term
                &&& t.log == self.at(k, p).log
                &&& 1 <= t.commit_index <= t.log.len()
                &&& t.log[t.commit_index - 1].term == t.term
                &&& self.elected_before(k, p, t.term)
                &&& holders.subset_of(vstd::set_lib::set_int_range(0, self.peers()))
                &&& VoteRound::majority(holders.len() as int, self.peers())
                &&& forall|i: int| #[trigger]
                    holders.contains(i) ==> self.held(k + 1, p, i, t.commit_index as int)
            }),
    {
        self.one_peer_moves(k, p);
        self.peers_stay_valid(k, p);
        assert(self.sound_step(k));
        let s = self.at(k, p);
        let t = self.at(k + 1, p);
        let c = t.commit_index;
        match self.steps[k].1 {
            Turn::Handle(Event::Action(ActionEv::UpdatePeer(term, id, res))) => {
                crate::laws::commitment::commitment_needs_majority(s, term, id, res);
                let idx = res->Ok_0;
                let (sent, at) = choose|sent: int, at: int|
                    at < k && self.at(sent, p).term == term && idx == self.match_index(
                        id as int,
                        p,
                        sent,
                    ) && #[trigger] self.accepts(at, id as int, p, sent);
                self.senders_are_elected(sent, p);
                let e = choose|e: int| e < sent && #[trigger] self.elected(e, p, term);
                assert(self.elected(e, p, t.term));
            },
            _ => {
                assert(false);
            },
        }
        let holders = crate::laws::commitment::holders(t, c);
        assert forall|i: int| #[trigger] holders.contains(i) implies self.held(
            k + 1,
            p,
            i,
            c as int,
        ) by {
            if i == p {
                assert(self.held_at(k + 1, k + 1, p, p, c as int));
            } else {
                let m = t.match_index[i] as int;
                let after = k + 1;
                self.match_index_is_true(after, p, i);
                let a = choose|a: int| #[trigger] self.held_at(a, after, p, i, m);
                let log = self.at(a, i).log;
                assert(log.take(m).take(c as int) =~= log.take(c as int));
                assert(t.log.take(m).take(c as int) =~= t.log.take(c as int));
                assert(self.held_at(a, after, p, i, c as int));
            }
        }
        holders
    }

    /// Whether the log of peer `q` at time `k` agrees up to index `c` with the log in which peer
    /// `p0` has committed entries at step `k0`.
    pub open spec fn keeps(self, k0: int, p0: int, c: int, k: int, q: int) -> bool {
        &&& c <= self.at(k, q).log.len()
        &&& self.at(k, q).log.take(c) == self.at(k0 + 1, p0).log.take(c)
    }

    /// Entries that a peer accepts leave committed ones in place. They were sent by peer `l` at
    /// step `from`; peer `q` has them at time `b`. `u` and `j` bound the terms and the elections
    /// of the leaders that matter.
    pub proof fn entries_keep_committed(
        self,
        k0: int,
        p0: int,
        c: int,
        b: int,
        q: int,
        from: int,
        l: int,
        u: int,
        j: int,
    )
        requires
            self.valid(),
            0 <= p0 < self.peers(),
            0 <= q < self.peers(),
            self.commits(k0, p0),
            0 <= c <= self.at(k0 + 1, p0).commit_index,
            0 <= b <= self.end(),
            self.at(b, q).term >= self.at(k0, p0).term,
            self.keeps(k0, p0, c, b, q),
            self.sends(from, l, q, self.at(from, l).append_args(q)),
            self.at(b, q).append_conflict(self.at(from, l).append_args(q)) is None,
            self.at(from, l).term < u || self.at(from, l).term == u && from < j,
            0 <= u,
            0 <= j,
        ensures
            ({
                let log = self.at(b, q).after_append(self.at(from, l).append_args(q)).log;
                &&& c <= log.len()
                &&& log.take(c) == self.at(k0 + 1, p0).log.take(c)
            }),
        decreases u, j, 0int,
    {
        self.one_peer_moves(from, q);
        self.peers_stay_valid(b, q);
        self.peers_stay_valid(from, l);
        self.logs_match(from, b, l, q);
        self.logs_are_indexed(from, l);
        self.senders_are_elected(from, l);
        let leader = self.at(from, l);
        let args = leader.append_args(q);
        let s = self.at(b, q);
        let term = leader.term;
        let committed = self.at(k0 + 1, p0).log;
        assert(leader.heartbeat_ready(q));
        crate::laws::replication::accepted_entries_agree(leader, s, q as usize);
        let _ = self.committed_is_held(k0, p0);
        let e = choose|e: int| e < from && #[trigger] self.elected(e, l, term);
        if s.after_append(args).log == s.log {
        } else if term > self.at(k0, p0).term {
            self.leader_has_committed(k0, p0, term, e, l);
            self.elected_log_grows(e, l, term, e, from);
            let n = self.at(e, l).log.len() as int;
            let c0 = self.at(k0 + 1, p0).commit_index as int;
            assert(leader.log.take(n).take(c0) =~= leader.log.take(c0));
            assert(leader.log.take(c0).take(c) =~= leader.log.take(c));
            assert(committed.take(c0).take(c) =~= committed.take(c));
        } else {
            let f = choose|f: int| f < k0 && #[trigger] self.elected(f, p0, term);
            self.one_peer_elected(e, f, l, p0, term);
            if leader.log.len() >= c {
                self.elected_logs_agree(e, l, term, from, k0 + 1, c);
            } else {
                // The leader has sent a part of what the peer holds, which changes nothing.
                let n = leader.log.len() as int;
                self.elected_logs_agree(e, l, term, from, k0 + 1, n);
                assert(leader.log.take(n)[n - 1] == committed.take(n)[n - 1]);
                assert(s.log.take(c)[n - 1] == committed.take(c)[n - 1]);
                assert(args.entries.last() == leader.log[n - 1]);
                assert(s.conflict(n as usize, leader.log[n - 1].term) is None);
                assert(false);
            }
        }
    }

    /// A step of a peer that holds committed entries keeps them.
    pub proof fn step_keeps_committed(
        self,
        k0: int,
        p0: int,
        c: int,
        b: int,
        q: int,
        u: int,
        j: int,
    )
        requires
            self.valid(),
            0 <= p0 < self.peers(),
            0 <= q < self.peers(),
            self.commits(k0, p0),
            0 <= c <= self.at(k0 + 1, p0).commit_index,
            0 <= b < self.end(),
            self.at(b, q).term >= self.at(k0, p0).term,
            self.keeps(k0, p0, c, b, q),
            self.at(b + 1, q).term < u || self.at(b + 1, q).term == u && b < j,
            0 <= u,
            0 <= j,
        ensures
            self.keeps(k0, p0, c, b + 1, q),
        decreases u, j, 1int,
    {
        self.one_peer_moves(b, q);
        self.peers_stay_valid(b, q);
        assert(self.sound_step(b));
        let s = self.at(b, q);
        let t = self.at(b + 1, q);
        if t.log != s.log {
            match self.steps[b].1 {
                Turn::Handle(Event::Action(ActionEv::AppendEntries(args))) => {
                    let (from, l) = choose|from: int, l: int|
                        from < b && #[trigger] self.sends(from, l, q, args@);
                    self.entries_keep_committed(k0, p0, c, b, q, from, l, u, j);
                },
                _ => {
                    assert(t.log.take(c) =~= s.log.take(c));
                },
            }
        }
    }

    /// A peer that holds committed entries at time `a` still holds them at time `b`.
    proof fn run_keeps_committed(
        self,
        k0: int,
        p0: int,
        c: int,
        a: int,
        b: int,
        q: int,
        u: int,
        j: int,
    )
        requires
            self.valid(),
            0 <= p0 < self.peers(),
            0 <= q < self.peers(),
            self.commits(k0, p0),
            0 <= c <= self.at(k0 + 1, p0).commit_index,
            0 <= a <= b <= self.end(),
            self.at(a, q).term >= self.at(k0, p0).term,
            self.keeps(k0, p0, c, a, q),
            self.at(b, q).term < u || self.at(b, q).term == u && b <= j,
            0 <= u,
            0 <= j,
        ensures
            self.keeps(k0, p0, c, b, q),
        decreases u, j, b - a + 2,
    {
        if a < b {
            self.terms_grow(a, b - 1, q);
            self.terms_grow(b - 1, b, q);
            self.run_keeps_committed(k0, p0, c, a, b - 1, q, u, j);
            self.step_keeps_committed(k0, p0, c, b - 1, q, u, j);
        }
    }

    /// A log that is not behind one that holds committed entries holds them, too. Peer `q` grants
    /// its vote to peer `r` at step `v`, which has asked for it at step `start`.
    proof fn vote_needs_committed(
        self,
        k0: int,
        p0: int,
        v: int,
        q: int,
        start: int,
        r: int,
        u: int,
        j: int,
    )
        requires
            self.valid(),
            0 <= p0 < self.peers(),
            0 <= q < self.peers(),
            0 <= r < self.peers(),
            self.commits(k0, p0),
            self.keeps(k0, p0, self.at(k0 + 1, p0).commit_index as int, v, q),
            self.asks(start, r, self.at(start + 1, r).vote_args()),
            self.at(start + 1, r).term == u,
            self.grants(v, q, self.at(start + 1, r).vote_args()),
            0 <= j,
        ensures
            self.keeps(k0, p0, self.at(k0 + 1, p0).commit_index as int, start + 1, r),
        decreases u, j, 0int,
    {
        let c = self.at(k0 + 1, p0).commit_index as int;
        let committed = self.at(k0 + 1, p0).log;
        let term = self.at(k0, p0).term;
        let qlog = self.at(v, q).log;
        let rlog = self.at(start + 1, r).log;
        let _ = self.committed_is_held(k0, p0);
        self.one_peer_moves(start, r);
        self.one_peer_moves(v, q);
        self.logs_are_indexed(v, q);
        self.logs_are_ordered(v, q);
        self.logs_are_ordered(start, r);
        self.logs_are_ordered(k0 + 1, p0);
        self.peers_stay_valid(start, r);
        self.peers_stay_valid(v, q);
        assert(rlog == self.at(start, r).log);
        assert(qlog.take(c)[c - 1] == committed.take(c)[c - 1]);
        assert(qlog[c - 1].term <= qlog.last().term);
        assert(rlog.len() > 0);
        let x = rlog.len() - 1;
        let after = start + 1;
        self.entries_have_authors(after, r, x);
        let (w, e, t) = choose|w: int, e: int, t: int| self.author(after, r, x, w, e, t);
        let wlog = self.at(t, w).log;
        let rterm = rlog[x].term;
        assert(wlog.take(x + 1) == rlog);
        if rterm == qlog.last().term {
            let y = qlog.len() - 1;
            self.entries_have_authors(v, q, y);
            let (w2, e2, t2) = choose|w2: int, e2: int, t2: int| self.author(v, q, y, w2, e2, t2);
            self.one_peer_elected(e, e2, w, w2, rterm);
            self.elected_logs_agree(e, w, rterm, t, t2, y + 1);
            assert(self.at(t2, w2).log.take(y + 1) == qlog);
            assert(wlog.take(x + 1).take(y + 1) =~= wlog.take(y + 1));
            assert(rlog.take(y + 1).take(c) =~= rlog.take(c));
        } else {
            self.leader_has_committed(k0, p0, rterm, e, w);
            self.elected_log_grows(e, w, rterm, e, t);
            let n = self.at(e, w).log.len() as int;
            assert(wlog.take(n).take(c) =~= wlog.take(c));
            if x < c {
                assert(wlog.take(x + 1)[x] == wlog.take(c)[x]);
                assert(committed.take(c)[x] == committed[x]);
                assert(committed[x].term <= committed[c - 1].term);
                assert(false);
            }
            assert(wlog.take(x + 1).take(c) =~= wlog.take(c));
        }
    }

    /// Leader completeness: what a peer commits stands in the log of every leader that is elected
    /// in a later term.
    pub proof fn leader_has_committed(self, k0: int, p0: int, term: u64, j: int, r: int)
        requires
            self.valid(),
            0 <= p0 < self.peers(),
            0 <= r < self.peers(),
            self.commits(k0, p0),
            self.elected(j, r, term),
            term > self.at(k0, p0).term,
        ensures
            self.keeps(k0, p0, self.at(k0 + 1, p0).commit_index as int, j, r),
        decreases term, j, self.end() + 3,
    {
        let c = self.at(k0 + 1, p0).commit_index as int;
        let committed = self.at(k0 + 1, p0).log;
        let u = term as int;
        assert(self.sound_step(j));
        let (start, granted) = choose|start: int, granted: Set<int>|
            self.at(start + 1, r).term == term && #[trigger] self.wins(j, r, start, granted);
        let args = self.at(start + 1, r).vote_args();
        self.one_peer_moves(start, r);
        self.peers_stay_valid(start, r);
        let voters = granted.insert(r);
        assert(!granted.contains(r));
        let holders = self.committed_is_held(k0, p0);
        crate::laws::election::majorities_meet(self.peers() as nat, voters, holders);
        let q = choose|q: int| voters.contains(q) && holders.contains(q);
        let done = k0 + 1;
        let a = choose|a: int| #[trigger] self.held_at(a, done, p0, q, c);
        if q == r {
            if a > start {
                self.terms_grow(start + 1, a, r);
            }
            self.run_keeps_committed(k0, p0, c, a, start, r, u, j);
        } else {
            let v = choose|v: int| start < v < j && #[trigger] self.grants(v, q, args);
            self.one_peer_moves(v, q);
            self.peers_stay_valid(v, q);
            if a > v {
                self.terms_grow(v + 1, a, q);
            }
            self.run_keeps_committed(k0, p0, c, a, v, q, u, j);
            self.vote_needs_committed(k0, p0, v, q, start, r, u, j);
        }
        let asked = self.at(start + 1, r).log;
        self.elected_log_grows(j, r, term, start + 1, j);
        assert(self.at(j, r).log.take(asked.len() as int).take(c) =~= self.at(j, r).log.take(c));
    }
}

} // verus!
