//! Agreement: no two peers commit different entries at the same index.
use vstd::prelude::*;

use crate::event::{ActionEv, Event, TimeoutEv};
use crate::laws::history::History;
use crate::laws::run::Turn;
use crate::model::RaftView;

verus! {

impl History {
    /// Whether what peer `q` takes for committed at time `k` is a part of what peer `p0` has
    /// committed at step `k0`.
    pub open spec fn backed(self, k: int, q: int, k0: int, p0: int) -> bool {
        let s = self.at(k, q);
        &&& k0 < k
        &&& 0 <= p0 < self.peers()
        &&& self.commits(k0, p0)
        &&& self.at(k0, p0).term <= s.term
        &&& s.commit_index <= self.at(k0 + 1, p0).commit_index
        &&& self.keeps(k0, p0, s.commit_index as int, k, q)
    }

    /// Whatever a peer takes for committed stands in its log, and was committed by a peer for
    /// which a majority held it.
    pub proof fn commitment_is_backed(self, k: int, q: int)
        requires
            self.valid(),
            0 <= k <= self.end(),
            0 <= q < self.peers(),
        ensures
            self.at(k, q).commit_index <= self.at(k, q).log.len(),
            self.at(k, q).commit_index > 0 ==> exists|k0: int, p0: int|
                self.backed(k, q, k0, p0),
        decreases k, 1int,
    {
        if k == 0 {
            assert(self.at(0, q) == RaftView::initial(self.peers() as usize, q as usize));
        } else {
            let j = k - 1;
            self.one_peer_moves(j, q);
            self.terms_grow(j, k, q);
            assert(self.sound_step(j));
            let s = self.at(j, q);
            let t = self.at(k, q);
            if s.commit_index == t.commit_index {
                self.commitment_is_backed(j, q);
                if t.commit_index > 0 {
                    let (k0, p0) = choose|k0: int, p0: int| self.backed(j, q, k0, p0);
                    self.step_keeps_committed(
                        k0,
                        p0,
                        t.commit_index as int,
                        j,
                        q,
                        u64::MAX + 1,
                        0,
                    );
                    assert(self.backed(k, q, k0, p0));
                }
            } else if self.commits(j, q) {
                let _ = self.committed_is_held(j, q);
                assert(self.backed(k, q, j, q));
            } else {
                self.word_of_leader_is_backed(k, q);
            }
        }
    }

    /// What a peer commits on the word of a leader is backed as the leader's commitment is. A
    /// peer that is started again takes nothing for committed.
    proof fn word_of_leader_is_backed(self, k: int, q: int)
        requires
            self.valid(),
            0 < k <= self.end(),
            0 <= q < self.peers(),
            self.at(k - 1, q).commit_index != self.at(k, q).commit_index,
            !self.commits(k - 1, q),
        ensures
            self.at(k, q).commit_index <= self.at(k, q).log.len(),
            self.at(k, q).commit_index > 0 ==> exists|k0: int, p0: int|
                self.backed(k, q, k0, p0),
        decreases k, 0int,
    {
        let j = k - 1;
        self.one_peer_moves(j, q);
        self.peers_stay_valid(j, q);
        assert(self.sound_step(j));
        let s = self.at(j, q);
        let t = self.at(k, q);
        match self.steps[j].1 {
            Turn::Handle(Event::Action(ActionEv::AppendEntries(args))) => {
                let (from, l) = choose|from: int, l: int|
                    from < j && #[trigger] self.sends(from, l, q, args@);
                self.one_peer_moves(from, q);
                self.peers_stay_valid(from, l);
                self.senders_are_elected(from, l);
                self.logs_are_indexed(from, l);
                self.logs_match(from, j, l, q);
                let leader = self.at(from, l);
                assert(leader.heartbeat_ready(q));
                crate::laws::replication::followers_commit_with_leader(leader, s, q as usize);
                self.commitment_is_backed(from, l);
                let c = t.commit_index as int;
                if c > 0 {
                    let (k0, p0) = choose|k0: int, p0: int| self.backed(from, l, k0, p0);
                    let _ = self.committed_is_held(k0, p0);
                    let n = leader.commit_index as int;
                    let committed = self.at(k0 + 1, p0).log;
                    assert(leader.log.take(n).take(c) =~= leader.log.take(c));
                    assert(committed.take(n).take(c) =~= committed.take(c));
                    assert(self.backed(k, q, k0, p0));
                }
            },
            _ => {
                assert(t.commit_index == 0);
            },
        }
    }

    /// Any two peers that commit entries because a majority holds them commit the same ones, as
    /// far as both go.
    pub proof fn majorities_commit_alike(self, k: int, p: int, l: int, q: int, n: int)
        requires
            self.valid(),
            0 <= p < self.peers(),
            0 <= q < self.peers(),
            self.commits(k, p),
            self.commits(l, q),
            0 <= n <= self.at(k + 1, p).commit_index,
            n <= self.at(l + 1, q).commit_index,
        ensures
            self.at(k + 1, p).log.take(n) == self.at(l + 1, q).log.take(n),
    {
        let _ = self.committed_is_held(k, p);
        let _ = self.committed_is_held(l, q);
        if self.at(k, p).term == self.at(l, q).term {
            let term = self.at(k, p).term;
            let e = choose|e: int| e < k && #[trigger] self.elected(e, p, term);
            let f = choose|f: int| f < l && #[trigger] self.elected(f, q, term);
            self.one_peer_elected(e, f, p, q, term);
            self.elected_logs_agree(e, p, term, k + 1, l + 1, n);
        } else if self.at(k, p).term < self.at(l, q).term {
            self.later_commitment_agrees(k, p, l, q, n);
        } else {
            self.later_commitment_agrees(l, q, k, p, n);
        }
    }

    proof fn later_commitment_agrees(self, k: int, p: int, l: int, q: int, n: int)
        requires
            self.valid(),
            0 <= p < self.peers(),
            0 <= q < self.peers(),
            self.commits(k, p),
            self.commits(l, q),
            self.at(k, p).term < self.at(l, q).term,
            0 <= n <= self.at(k + 1, p).commit_index,
            n <= self.at(l + 1, q).commit_index,
        ensures
            self.at(k + 1, p).log.take(n) == self.at(l + 1, q).log.take(n),
    {
        let _ = self.committed_is_held(k, p);
        let _ = self.committed_is_held(l, q);
        let term = self.at(l, q).term;
        let f = choose|f: int| f < l && #[trigger] self.elected(f, q, term);
        self.leader_has_committed(k, p, term, f, q);
        self.elected_log_grows(f, q, term, f, l + 1);
        let c = self.at(k + 1, p).commit_index as int;
        let first = self.at(f, q).log;
        let last = self.at(l + 1, q).log;
        assert(last.take(first.len() as int).take(n) =~= last.take(n));
        assert(first.take(c).take(n) =~= first.take(n));
        assert(self.at(k + 1, p).log.take(c).take(n) =~= self.at(k + 1, p).log.take(n));
    }

    /// Agreement: whatever two peers take for committed, at whatever times, is the same at every
    /// index that both have reached.
    pub proof fn committed_entries_agree(self, i: int, j: int, p: int, q: int, x: int)
        requires
            self.valid(),
            0 <= i <= self.end(),
            0 <= j <= self.end(),
            0 <= p < self.peers(),
            0 <= q < self.peers(),
            0 <= x < self.at(i, p).commit_index,
            x < self.at(j, q).commit_index,
        ensures
            x < self.at(i, p).log.len(),
            x < self.at(j, q).log.len(),
            self.at(i, p).log[x] == self.at(j, q).log[x],
    {
        self.commitment_is_backed(i, p);
        self.commitment_is_backed(j, q);
        let (k0, p0) = choose|k0: int, p0: int| self.backed(i, p, k0, p0);
        let (k1, p1) = choose|k1: int, p1: int| self.backed(j, q, k1, p1);
        let _ = self.committed_is_held(k0, p0);
        let _ = self.committed_is_held(k1, p1);
        self.majorities_commit_alike(k0, p0, k1, p1, x + 1);
        let a = self.at(i, p).log;
        let b = self.at(j, q).log;
        let c = self.at(k0 + 1, p0).log;
        let d = self.at(k1 + 1, p1).log;
        assert(a.take(self.at(i, p).commit_index as int)[x] == c.take(
            self.at(i, p).commit_index as int,
        )[x]);
        assert(b.take(self.at(j, q).commit_index as int)[x] == d.take(
            self.at(j, q).commit_index as int,
        )[x]);
        assert(c.take(x + 1)[x] == d.take(x + 1)[x]);
    }

    /// State machine safety: no two peers ever hand different commands to their services under
    /// the same index.
    pub proof fn services_get_the_same_commands(
        self,
        i: int,
        p: int,
        ev: Event,
        j: int,
        q: int,
        fv: Event,
    )
        requires
            self.valid(),
            self.handles(i, p, ev),
            self.handles(j, q, fv),
            self.at(i, p).effects(ev).apply is Some,
            self.at(j, q).effects(fv).apply is Some,
            self.at(i, p).effects(ev).apply->0.command_index == self.at(j, q).effects(
                fv,
            ).apply->0.command_index,
        ensures
            self.at(i, p).effects(ev).apply == self.at(j, q).effects(fv).apply,
    {
        assert(self.sound_step(i));
        assert(self.sound_step(j));
        self.one_peer_moves(i, p);
        self.one_peer_moves(j, q);
        self.peers_stay_valid(i, p);
        self.peers_stay_valid(j, q);
        crate::laws::application::only_committed_commands_are_handed_over(self.at(i, p), ev);
        crate::laws::application::only_committed_commands_are_handed_over(self.at(j, q), fv);
        self.committed_entries_agree(
            i + 1,
            j + 1,
            p,
            q,
            self.at(i + 1, p).last_applied as int,
        );
    }

    /// Whether the numbers that the event leads to fit into their types.
    pub open spec fn fits(self, k: int, p: int, ev: Event) -> bool {
        let s = self.at(k, p);
        match ev {
            Event::Action(ActionEv::NewEntry(_)) => s.log.len() + 1 < usize::MAX,
            Event::Timeout(TimeoutEv::Election) => s.term < u64::MAX,
            _ => true,
        }
    }

    /// Every peer stays coherent.
    pub proof fn peers_stay_coherent(self, k: int, p: int)
        requires
            self.valid(),
            0 <= k <= self.end(),
            0 <= p < self.peers(),
        ensures
            crate::laws::soundness::coherent(self.at(k, p)),
        decreases k,
    {
        if k == 0 {
            assert(self.at(0, p) == RaftView::initial(self.peers() as usize, p as usize));
            crate::laws::soundness::new_peer_is_coherent(self.peers() as usize, p as usize);
        } else {
            let j = k - 1;
            self.peers_stay_coherent(j, p);
            self.one_peer_moves(j, p);
            assert(self.sound_step(j));
            match self.steps[j].1 {
                Turn::Handle(ev) => {
                    if self.steps[j].0 == p {
                        self.genuine_events_are_sound(j, p, ev);
                        crate::laws::soundness::sound_events_keep_peer_coherent(self.at(j, p), ev);
                    }
                },
                _ => {},
            }
        }
    }

    /// Events that the peers bring about are sound.
    proof fn genuine_events_are_sound(self, k: int, p: int, ev: Event)
        requires
            self.valid(),
            0 <= k <= self.end(),
            0 <= p < self.peers(),
            self.genuine(k, p, ev),
            self.fits(k, p, ev) || self.at(k, p).ready_for(ev),
        ensures
            crate::laws::soundness::sound(self.at(k, p), ev),
    {
        let s = self.at(k, p);
        self.peers_stay_valid(k, p);
        match ev {
            Event::Action(ActionEv::AppendEntries(args)) => {
                let (from, l) = choose|from: int, l: int|
                    from < k && #[trigger] self.sends(from, l, p, args@);
                self.one_peer_moves(from, p);
                self.peers_stay_valid(from, l);
                self.senders_are_elected(from, l);
                self.logs_are_indexed(from, l);
                let leader = self.at(from, l);
                assert(leader.heartbeat_ready(p));
                assert(args@.entries.len() == args.entries@.len());
                if s.append_conflict(args@) is None && s.replaces(args@) {
                    self.commitment_is_backed(k, p);
                    if s.commit_index > 0 {
                        let (k0, p0) = choose|k0: int, p0: int| self.backed(k, p, k0, p0);
                        self.entries_keep_committed(
                            k0,
                            p0,
                            s.commit_index as int,
                            k,
                            p,
                            from,
                            l,
                            u64::MAX + 1,
                            0,
                        );
                    }
                }
            },
            Event::Action(ActionEv::UpdatePeer(term, id, Ok(idx))) => {
                if term == s.term {
                    let (sent, at) = choose|sent: int, at: int|
                        at < k && self.at(sent, p).term == term && idx == self.match_index(
                            id as int,
                            p,
                            sent,
                        ) && #[trigger] self.accepts(at, id as int, p, sent);
                    self.senders_are_elected(sent, p);
                    self.peers_stay_valid(sent, p);
                    let e = choose|e: int| e < sent && #[trigger] self.elected(e, p, term);
                    assert(self.elected(e, p, s.term));
                    assert(self.at(sent, p).heartbeat_ready(id as int));
                    self.elected_log_grows(e, p, term, sent, k);
                    self.match_index_is_true(k, p, id as int);
                }
            },
            _ => {},
        }
    }

    /// No peer of a cluster is ever at a loss: it can handle every event that the peers bring
    /// about, as long as the numbers fit into their types.
    pub proof fn peers_can_handle_events(self, k: int, p: int, ev: Event)
        requires
            self.valid(),
            0 <= k <= self.end(),
            0 <= p < self.peers(),
            self.genuine(k, p, ev),
            self.fits(k, p, ev),
        ensures
            self.at(k, p).ready_for(ev),
    {
        self.peers_stay_coherent(k, p);
        self.genuine_events_are_sound(k, p, ev);
        crate::laws::soundness::sound_events_keep_peer_coherent(self.at(k, p), ev);
    }
}

} // verus!
