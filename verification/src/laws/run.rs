//! Runs of one peer, through events and crashes.
use vstd::prelude::*;

use crate::event::{ActionEv, Event, TimeoutEv};
use crate::model::RaftView;

verus! {

/// What can happen to a peer.
pub enum Turn {
    /// It handles an event.
    Handle(Event),
    /// It crashes, and starts again from what was saved.
    Restart,
    /// It waits, while others move.
    Wait,
}

impl Turn {
    pub open spec fn possible(self, s: RaftView) -> bool {
        self matches Turn::Handle(ev) ==> s.ready_for(ev)
    }

    /// The state that it leads to.
    pub open spec fn outcome(self, s: RaftView) -> RaftView {
        match self {
            Turn::Handle(ev) => s.next(ev),
            Turn::Restart => s.restarted(),
            Turn::Wait => s,
        }
    }
}

/// The states that a peer goes through, and what happens to it between them.
pub struct Run {
    pub states: Seq<RaftView>,
    pub turns: Seq<Turn>,
}

impl Run {
    /// Whether turn `k` leads from state `k` to the next one.
    pub open spec fn linked(self, k: int) -> bool {
        &&& self.turns[k].possible(self.states[k])
        &&& self.states[k + 1] == self.turns[k].outcome(self.states[k])
    }

    pub open spec fn valid(self) -> bool {
        &&& self.states.len() == self.turns.len() + 1
        &&& forall|k: int| 0 <= k < self.turns.len() ==> #[trigger] self.linked(k)
    }

    /// A run that starts with a new peer goes through valid states only.
    pub proof fn states_stay_valid(self, peers: usize, me: usize, k: int)
        requires
            self.valid(),
            self.states[0] == RaftView::initial(peers, me),
            0 <= k <= self.turns.len(),
        ensures
            self.states[k].valid(),
        decreases k,
    {
        if k > 0 {
            self.states_stay_valid(peers, me, k - 1);
            assert(self.linked(k - 1));
        }
    }

    /// Whether the peer votes for `candidate` in `term` at turn `k`: it grants the candidate's
    /// request, or it stands for election itself.
    pub open spec fn votes(self, k: int, term: u64, candidate: usize) -> bool {
        &&& 0 <= k < self.turns.len()
        &&& match self.turns[k] {
            Turn::Handle(Event::Action(ActionEv::RequestVote(args))) => {
                &&& self.states[k].grants(args)
                &&& args.term == term
                &&& args.candidate_id as usize == candidate
            },
            Turn::Handle(Event::Timeout(TimeoutEv::Election)) => {
                &&& self.states[k].term + 1 == term
                &&& self.states[k].me == candidate
            },
            _ => false,
        }
    }

    /// Whether the peer votes for `candidate` in `term` at some time.
    pub open spec fn ever_votes(self, term: u64, candidate: usize) -> bool {
        exists|k: int| self.votes(k, term, candidate)
    }

    /// How many messages the service has taken in the first `k` turns, since the last restart.
    pub open spec fn taken(self, k: int) -> nat
        decreases k,
    {
        if k <= 0 {
            0
        } else {
            match self.turns[k - 1] {
                Turn::Handle(Event::Action(ActionEv::ApplySuccess)) => self.taken(k - 1) + 1,
                Turn::Restart => 0,
                _ => self.taken(k - 1),
            }
        }
    }
}

} // verus!
