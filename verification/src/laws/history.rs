//! Histories of a whole cluster: several peers, and what happens to one after another.
use vstd::prelude::*;

use crate::event::{ActionEv, Event, TimeoutEv};
use crate::laws::run::{Run, Turn};
use crate::model::RaftView;
use crate::peer::Role;
use crate::rounds::{AppendCallView, VoteRound};
use crate::service::{AppendEntriesArgsView, RequestVoteArgs};

verus! {

/// What happens in a cluster: at step `k`, one peer handles an event or is started again after a
/// crash, which leads from the states at time `k` to those at time `k + 1`.
pub struct History {
    pub states: Seq<Seq<RaftView>>,
    pub steps: Seq<(int, Turn)>,
}

impl History {
    /// The number of peers.
    pub open spec fn peers(self) -> int {
        self.states[0].len() as int
    }

    /// The state of peer `p` at time `k`.
    pub open spec fn at(self, k: int, p: int) -> RaftView {
        self.states[k][p]
    }

    /// The last time.
    pub open spec fn end(self) -> int {
        self.steps.len() as int
    }

    /// Whether peer `p` handles `ev` at step `k`.
    pub open spec fn handles(self, k: int, p: int, ev: Event) -> bool {
        &&& 0 <= k < self.end()
        &&& self.steps[k] == (p, Turn::Handle(ev))
    }

    /// Whether step `k` leads from the states at time `k` to the next ones.
    pub open spec fn linked(self, k: int) -> bool {
        let (p, turn) = self.steps[k];
        &&& 0 <= p < self.peers()
        &&& self.states[k].len() == self.peers()
        &&& turn.possible(self.at(k, p))
        &&& self.states[k + 1] == self.states[k].update(p, turn.outcome(self.at(k, p)))
    }

    /// Whether all peers are new at first.
    pub open spec fn starts(self) -> bool {
        &&& self.peers() <= usize::MAX
        &&& forall|p: int|
            0 <= p < self.peers() ==> #[trigger] self.at(0, p) == RaftView::initial(
                self.peers() as usize,
                p as usize,
            )
    }

    // ---- where events come from ----
    /// Whether peer `p` stands for election at step `k` and asks for votes with `args`.
    pub open spec fn asks(self, k: int, p: int, args: RequestVoteArgs) -> bool {
        &&& self.handles(k, p, Event::Timeout(TimeoutEv::Election))
        &&& args == self.at(k + 1, p).vote_args()
    }

    /// Whether peer `p` grants the vote that `args` ask for at step `k`.
    pub open spec fn grants(self, k: int, p: int, args: RequestVoteArgs) -> bool {
        &&& self.handles(k, p, Event::Action(ActionEv::RequestVote(args)))
        &&& self.at(k, p).grants(args)
    }

    /// Whether peer `p` grants the vote that `args` ask for between `from` and `to`.
    pub open spec fn grants_between(
        self,
        from: int,
        to: int,
        p: int,
        args: RequestVoteArgs,
    ) -> bool {
        exists|k: int| from < k < to && #[trigger] self.grants(k, p, args)
    }

    /// Whether before step `k` peer `p` wins the election that it has started at step `start`,
    /// by the votes of the peers in `voters` and its own.
    pub open spec fn wins(self, k: int, p: int, start: int, voters: Set<int>) -> bool {
        let args = self.at(start + 1, p).vote_args();
        &&& start < k
        &&& self.asks(start, p, args)
        &&& voters.finite()
        &&& forall|i: int| #[trigger]
            voters.contains(i) ==> 0 <= i < self.peers() && i != p && self.grants_between(
                start,
                k,
                i,
                args,
            )
        &&& VoteRound::majority((1 + voters.len()) as int, self.peers())
    }

    /// Whether peer `p` sends `args` to peer `id` with a heartbeat at step `k`.
    pub open spec fn sends(self, k: int, p: int, id: int, args: AppendEntriesArgsView) -> bool {
        &&& self.handles(k, p, Event::Timeout(TimeoutEv::Heartbeat))
        &&& id != p
        &&& args == self.at(k, p).append_args(id)
    }

    /// Whether peer `id` accepts at step `k` what peer `p` has sent to it at step `sent`.
    pub open spec fn accepts(self, k: int, id: int, p: int, sent: int) -> bool {
        let args = self.at(sent, p).append_args(id);
        &&& sent < k
        &&& self.sends(sent, p, id, args)
        &&& exists|msg| #[trigger]
            self.handles(k, id, Event::Action(ActionEv::AppendEntries(msg))) && msg@ == args
        &&& self.at(k, id).append_conflict(args) is None
    }

    /// The match index that an acceptance of what peer `p` has sent to peer `id` stands for.
    pub open spec fn match_index(self, id: int, p: int, sent: int) -> int {
        (AppendCallView { id: id as usize, args: self.at(sent, p).append_args(id) }).match_index()
    }

    /// Whether before step `k` peer `id` accepts what peer `p` has sent to it in `term`, so that
    /// the two agree up to `idx`.
    pub open spec fn accepted_before(self, k: int, p: int, term: u64, id: int, idx: int) -> bool {
        exists|sent: int, at: int|
            at < k && self.at(sent, p).term == term && idx == self.match_index(id, p, sent)
                && #[trigger] self.accepts(at, id, p, sent)
    }

    /// Whether at time `k` peer `p` can get the event, because the peers bring it about. Requests
    /// come from candidates and leaders, elections are won by votes, what a leader hears of other
    /// peers is what they have answered, and what a peer hears of the service is about the message
    /// on its way. Requests and answers can be lost, can come late, out of order and repeatedly.
    /// The timer suits the role.
    ///
    /// One event is left out: a leader that refuses its vote to a candidate of a higher term
    /// takes over that term and goes on to lead in it, although it was not elected in it.
    pub open spec fn genuine(self, k: int, p: int, ev: Event) -> bool {
        let s = self.at(k, p);
        match ev {
            Event::Action(ActionEv::RequestVote(args)) => {
                &&& exists|from: int, c: int|
                    from < k && c != p && #[trigger] self.asks(from, c, args)
                &&& s.role == Role::Leader && args.term > s.term ==> s.grants(args)
            },
            Event::Action(ActionEv::AppendEntries(args)) => exists|from: int, l: int|
                from < k && #[trigger] self.sends(from, l, p, args@),
            Event::Action(ActionEv::BecomeLeader(term)) => exists|start: int, voters: Set<int>|
                self.at(start + 1, p).term == term && #[trigger] self.wins(k, p, start, voters),
            Event::Action(ActionEv::UpdatePeer(term, id, Ok(idx))) => {
                &&& id < self.peers()
                &&& self.accepted_before(k, p, term, id as int, idx as int)
            },
            Event::Action(ActionEv::UpdatePeer(_, id, Err(_))) => id < self.peers(),
            Event::Action(ActionEv::ApplySuccess) => s.applying,
            Event::Action(ActionEv::ApplyFailed) => s.applying,
            Event::Timeout(TimeoutEv::Election) => s.role != Role::Leader,
            Event::Timeout(TimeoutEv::Heartbeat) => s.role == Role::Leader,
            _ => true,
        }
    }

    /// Whether step `k` is one that can happen.
    pub open spec fn sound_step(self, k: int) -> bool {
        &&& self.linked(k)
        &&& self.steps[k].1 matches Turn::Handle(ev) ==> self.genuine(k, self.steps[k].0, ev)
    }

    pub open spec fn valid(self) -> bool {
        &&& self.states.len() == self.steps.len() + 1
        &&& self.starts()
        &&& forall|k: int| 0 <= k < self.end() ==> #[trigger] self.sound_step(k)
    }

    // ---- what each step keeps ----
    /// Step `k` changes the peer that it happens to, and no other one.
    pub proof fn one_peer_moves(self, k: int, p: int)
        requires
            self.valid(),
            0 <= k < self.end(),
            0 <= p < self.peers(),
        ensures
            self.states[k].len() == self.peers(),
            self.states[k + 1].len() == self.peers(),
            0 <= self.steps[k].0 < self.peers(),
            self.steps[k].1.possible(self.at(k, self.steps[k].0)),
            self.steps[k].0 != p ==> self.at(k + 1, p) == self.at(k, p),
            self.steps[k].0 == p ==> self.at(k + 1, p) == self.steps[k].1.outcome(
                self.at(k, p),
            ),
    {
        assert(self.sound_step(k));
    }

    /// Every peer keeps its place, and stays valid.
    pub proof fn peers_stay_valid(self, k: int, p: int)
        requires
            self.valid(),
            0 <= k <= self.end(),
            0 <= p < self.peers(),
        ensures
            self.at(k, p).valid(),
            self.at(k, p).me == p,
            self.at(k, p).peers == self.peers(),
            self.at(k, p).is_leader <==> self.at(k, p).role == Role::Leader,
        decreases k,
    {
        if k == 0 {
            assert(self.at(0, p) == RaftView::initial(self.peers() as usize, p as usize));
        } else {
            self.peers_stay_valid(k - 1, p);
            self.one_peer_moves(k - 1, p);
            assert(self.sound_step(k - 1));
        }
    }

    /// What peer `p` goes through.
    pub open spec fn run_of(self, p: int) -> Run {
        Run {
            states: Seq::new((self.end() + 1) as nat, |k: int| self.at(k, p)),
            turns: Seq::new(
                self.end() as nat,
                |k: int|
                    if self.steps[k].0 == p {
                        self.steps[k].1
                    } else {
                        Turn::Wait
                    },
            ),
        }
    }

    pub proof fn runs_are_valid(self, p: int)
        requires
            self.valid(),
            0 <= p < self.peers(),
        ensures
            self.run_of(p).valid(),
    {
        let run = self.run_of(p);
        assert forall|k: int| 0 <= k < run.turns.len() implies #[trigger] run.linked(k) by {
            self.one_peer_moves(k, p);
        }
    }

    /// Terms never fall.
    pub proof fn terms_grow(self, i: int, j: int, p: int)
        requires
            self.valid(),
            0 <= i <= j <= self.end(),
            0 <= p < self.peers(),
        ensures
            self.at(i, p).term <= self.at(j, p).term,
        decreases j - i,
    {
        if i < j {
            self.terms_grow(i, j - 1, p);
            self.one_peer_moves(j - 1, p);
        }
    }
}

} // verus!
