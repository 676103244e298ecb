//! Requests that go to all other peers at once, and what their answers lead to.
use vstd::prelude::*;

use crate::event::ActionEv;
use crate::service::{
    AppendEntriesArgs, AppendEntriesArgsView, AppendEntriesReply, RequestVoteArgs,
    RequestVoteReply,
};

verus! {

/// The ballots of one election. The candidate's own vote is counted from the start.
#[derive(Clone, Copy, Debug, PartialEq, Eq, Structural)]
pub struct VoteRound {
    /// The term that the election is for.
    pub term: u64,
    /// The votes so far.
    pub votes: usize,
    /// The number of peers, the candidate among them.
    pub total: usize,
    /// Whether answers still matter.
    pub open: bool,
}

impl VoteRound {
    /// Whether `votes` out of `total` are more than half.
    pub open spec fn majority(votes: int, total: int) -> bool {
        2 * votes > total
    }

    /// An open round has counted the candidate and has no majority beyond it.
    pub open spec fn valid(self) -> bool {
        &&& self.votes >= 1
        &&& self.open ==> self.votes == 1 || !Self::majority(self.votes as int, self.total as int)
    }

    /// The round after one more answer; `None` stands for a request that failed.
    pub open spec fn after(self, res: Option<RequestVoteReply>) -> VoteRound {
        if !self.open {
            self
        } else {
            match res {
                None => VoteRound { open: false, ..self },
                Some(rep) => if rep.vote_granted {
                    VoteRound {
                        votes: (self.votes + 1) as usize,
                        open: !Self::majority(self.votes + 1, self.total as int),
                        ..self
                    }
                } else {
                    VoteRound { open: rep.term <= self.term, ..self }
                },
            }
        }
    }

    /// The event that one more answer gives rise to.
    pub open spec fn report(self, res: Option<RequestVoteReply>) -> Option<ActionEv> {
        match res {
            Some(rep) if self.open && rep.vote_granted && Self::majority(
                self.votes + 1,
                self.total as int,
            ) => Some(ActionEv::BecomeLeader(self.term)),
            Some(rep) if self.open && !rep.vote_granted && rep.term > self.term => Some(
                ActionEv::FoundNewTerm(rep.term),
            ),
            _ => None,
        }
    }

    /// Opens the election of `term` among `total` peers.
    pub fn new(term: u64, total: usize) -> (res: VoteRound)
        ensures
            res == (VoteRound { term, votes: 1, total, open: true }),
            res.valid(),
    {
        VoteRound { term, votes: 1, total, open: true }
    }

    /// Counts one answer; `None` stands for a request that failed, which ends the round. The
    /// answer that completes a majority, or that shows a higher term, gives an event and ends
    /// the round. Answers after the end are ignored.
    pub fn on_response(&mut self, res: Option<RequestVoteReply>) -> (ev: Option<ActionEv>)
        requires
            old(self).valid(),
        ensures
            final(self).valid(),
            *final(self) == old(self).after(res),
            ev == old(self).report(res),
    {
        if !self.open {
            return None;
        }
        match res {
            None => {
                self.open = false;
                None
            },
            Some(rep) => if rep.vote_granted {
                self.votes += 1;
                if self.votes > self.total / 2 {
                    self.open = false;
                    Some(ActionEv::BecomeLeader(self.term))
                } else {
                    None
                }
            } else if rep.term > self.term {
                self.open = false;
                Some(ActionEv::FoundNewTerm(rep.term))
            } else {
                None
            },
        }
    }
}

/// The requests of an election: `args` go to each of `targets`.
#[derive(Debug)]
pub struct VoteCall {
    pub args: RequestVoteArgs,
    pub targets: Vec<usize>,
    pub round: VoteRound,
}

/// A [`VoteCall`] as a mathematical value.
#[verifier::ext_equal]
pub struct VoteCallView {
    pub args: RequestVoteArgs,
    pub targets: Seq<usize>,
    pub round: VoteRound,
}

impl View for VoteCall {
    type V = VoteCallView;

    open spec fn view(&self) -> VoteCallView {
        VoteCallView { args: self.args, targets: self.targets@, round: self.round }
    }
}

/// One replication request.
#[derive(Debug)]
pub struct AppendCall {
    /// The peer that it goes to.
    pub id: usize,
    pub args: AppendEntriesArgs,
}

/// An [`AppendCall`] as a mathematical value.
#[verifier::ext_equal]
pub struct AppendCallView {
    pub id: usize,
    pub args: AppendEntriesArgsView,
}

impl View for AppendCall {
    type V = AppendCallView;

    open spec fn view(&self) -> AppendCallView {
        AppendCallView { id: self.id, args: self.args@ }
    }
}

impl AppendCallView {
    /// The index up to which a peer that accepts the request agrees with the leader.
    pub open spec fn match_index(self) -> int {
        self.args.prev_log_index as usize + self.args.entries.len()
    }
}

/// The replication requests of one heartbeat.
#[derive(Debug)]
pub struct HeartbeatCall {
    pub calls: Vec<AppendCall>,
    pub round: AppendRound,
}

/// A [`HeartbeatCall`] as a mathematical value.
#[verifier::ext_equal]
pub struct HeartbeatCallView {
    pub calls: Seq<AppendCallView>,
    pub round: AppendRound,
}

/// A sequence of requests as mathematical values.
pub open spec fn calls_view(calls: Seq<AppendCall>) -> Seq<AppendCallView> {
    Seq::new(calls.len(), |i: int| calls[i]@)
}

impl View for HeartbeatCall {
    type V = HeartbeatCallView;

    open spec fn view(&self) -> HeartbeatCallView {
        HeartbeatCallView { calls: calls_view(self.calls@), round: self.round }
    }
}

/// The answers to one heartbeat.
#[derive(Clone, Copy, Debug, PartialEq, Eq, Structural)]
pub struct AppendRound {
    /// The term in which the heartbeat was sent.
    pub term: u64,
    /// Whether answers still matter.
    pub open: bool,
}

impl AppendRound {
    /// The round after one more answer; `None` stands for a request that failed.
    pub open spec fn after(self, res: Option<AppendEntriesReply>) -> AppendRound {
        AppendRound { open: self.open && res is Some, ..self }
    }

    /// The event that the answer to `call` gives rise to: the peer's match index if it accepted,
    /// a higher term that it showed, or the index at which it wants to go on.
    pub open spec fn report(
        self,
        call: AppendCallView,
        res: Option<AppendEntriesReply>,
    ) -> Option<ActionEv> {
        match res {
            Some(rep) if self.open => Some(
                match rep.conflict {
                    None => ActionEv::UpdatePeer(
                        self.term,
                        call.id,
                        Ok(call.match_index() as usize),
                    ),
                    Some(conflict) => if rep.term > self.term {
                        ActionEv::FoundNewTerm(rep.term)
                    } else {
                        ActionEv::UpdatePeer(self.term, call.id, Err(conflict.log_index as usize))
                    },
                },
            ),
            _ => None,
        }
    }

    /// Starts to take the answers to the heartbeat of `term`.
    pub fn new(term: u64) -> (res: AppendRound)
        ensures
            res == (AppendRound { term, open: true }),
    {
        AppendRound { term, open: true }
    }

    /// Takes the answer to `call`; `None` stands for a request that failed, which ends the
    /// round. Answers after the end are ignored.
    pub fn on_response(&mut self, call: &AppendCall, res: Option<AppendEntriesReply>) -> (ev:
        Option<ActionEv>)
        requires
            call@.match_index() <= usize::MAX,
        ensures
            *final(self) == old(self).after(res),
            ev == old(self).report(call@, res),
    {
        if !self.open {
            return None;
        }
        match res {
            None => {
                self.open = false;
                None
            },
            Some(rep) => match rep.conflict {
                None => {
                    let match_idx: usize = call.args.prev_log_index as usize
                        + call.args.entries.len();
                    Some(ActionEv::UpdatePeer(self.term, call.id, Ok(match_idx)))
                },
                Some(conflict) => if rep.term > self.term {
                    Some(ActionEv::FoundNewTerm(rep.term))
                } else {
                    let next_idx: usize = conflict.log_index as usize;
                    Some(ActionEv::UpdatePeer(self.term, call.id, Err(next_idx)))
                },
            },
        }
    }
}

} // verus!
