//! What a round of requests reports is what the peers have brought about.
use vstd::prelude::*;

use crate::event::{ActionEv, Event};
use crate::laws::history::History;
use crate::rounds::AppendCallView;
use crate::service::{AppendEntriesArgs, RequestVoteReply};

verus! {

/// Whether the answer grants a vote.
pub open spec fn is_vote(answer: Option<RequestVoteReply>) -> bool {
    answer is Some && answer->0.vote_granted
}

/// Those among the peers in `asked` whose answers grant a vote.
pub open spec fn voters(asked: Seq<int>, answers: Seq<Option<RequestVoteReply>>) -> Set<int>
    decreases answers.len(),
{
    if answers.len() == 0 {
        Set::empty()
    } else {
        let before = voters(asked.drop_last(), answers.drop_last());
        if is_vote(answers.last()) {
            before.insert(asked.last())
        } else {
            before
        }
    }
}

/// Where no peer answers twice, there are as many voters as answers that grant a vote.
proof fn each_vote_has_its_voter(asked: Seq<int>, answers: Seq<Option<RequestVoteReply>>)
    requires
        asked.len() == answers.len(),
        asked.no_duplicates(),
    ensures
        voters(asked, answers).finite(),
        voters(asked, answers).len() == crate::laws::election::granted(answers),
        forall|i: int| #[trigger]
            voters(asked, answers).contains(i) ==> exists|j: int|
                0 <= j < asked.len() && #[trigger] asked[j] == i && is_vote(answers[j]),
    decreases answers.len(),
{
    if answers.len() > 0 {
        let n = answers.len() - 1;
        let fewer = asked.drop_last();
        let before = voters(fewer, answers.drop_last());
        each_vote_has_its_voter(fewer, answers.drop_last());
        assert forall|i: int| #[trigger] before.contains(i) implies exists|j: int|
            0 <= j < n && #[trigger] asked[j] == i && is_vote(answers[j]) by {
            let j = choose|j: int|
                0 <= j < fewer.len() && #[trigger] fewer[j] == i && is_vote(
                    answers.drop_last()[j],
                );
            assert(asked[j] == i);
        }
        assert(asked[n] == asked.last());
    }
}

impl History {
    /// An election that a round reports as won is won by the votes of a majority: of the peers
    /// whose answers granted a vote, and of the candidate. So the candidate can take over.
    ///
    /// Peer `p` has stood for election at step `start`. Before step `k` it has got `answers` from
    /// the peers in `asked`, one from each of them, and the last of the answers made the round
    /// report. An answer that grants a vote comes from a peer that has granted it.
    pub proof fn won_round_wins_election(
        self,
        k: int,
        p: int,
        start: int,
        asked: Seq<int>,
        answers: Seq<Option<RequestVoteReply>>,
        term: u64,
    )
        requires
            self.valid(),
            self.asks(start, p, self.at(start + 1, p).vote_args()),
            asked.len() == answers.len(),
            asked.no_duplicates(),
            answers.len() > 0,
            forall|j: int|
                0 <= j < asked.len() && is_vote(#[trigger] answers[j]) ==> asked[j] != p
                    && self.grants_between(
                    start,
                    k,
                    asked[j],
                    self.at(start + 1, p).vote_args(),
                ),
            self.at(start + 1, p).vote_call().round.after_all(answers.drop_last()).report(
                answers.last(),
            ) == Some(ActionEv::BecomeLeader(term)),
        ensures
            term == self.at(start + 1, p).term,
            exists|voters: Set<int>| self.wins(k, p, start, voters),
            self.genuine(k, p, Event::Action(ActionEv::BecomeLeader(term))),
    {
        let args = self.at(start + 1, p).vote_args();
        let total = self.at(start + 1, p).peers;
        let all = voters(asked, answers);
        assert(self.sound_step(start));
        self.peers_stay_valid(start + 1, p);
        crate::laws::election::won_round_has_majority(
            self.at(start + 1, p).term,
            total,
            answers.drop_last(),
            answers.last(),
        );
        assert(answers.drop_last().push(answers.last()) =~= answers);
        each_vote_has_its_voter(asked, answers);
        assert(is_vote(answers[answers.len() - 1]));
        assert forall|i: int| #[trigger] all.contains(i) implies 0 <= i < self.peers() && i != p
            && self.grants_between(start, k, i, args) by {
            let j = choose|j: int|
                0 <= j < asked.len() && #[trigger] asked[j] == i && is_vote(answers[j]);
            assert(is_vote(answers[j]));
            let v = choose|v: int| start < v < k && #[trigger] self.grants(v, i, args);
            assert(self.sound_step(v));
        }
        assert(self.wins(k, p, start, all));
    }

    /// What a round reports of a heartbeat is what the peer has answered: the leader hears that
    /// the peer has accepted, where it has accepted, or which index it wants to go on at, or
    /// which higher term it has shown. All of these the leader can get.
    ///
    /// Peer `p` has sent a request to peer `id` at step `sent`, which has answered it at step
    /// `at`, before step `k`.
    pub proof fn heartbeat_reports_are_genuine(
        self,
        k: int,
        p: int,
        sent: int,
        id: int,
        at: int,
        msg: AppendEntriesArgs,
        ev: ActionEv,
    )
        requires
            self.valid(),
            sent < at < k,
            self.sends(sent, p, id, msg@),
            self.handles(at, id, Event::Action(ActionEv::AppendEntries(msg))),
            self.at(sent, p).heartbeat_call().round.report(
                AppendCallView { id: id as usize, args: msg@ },
                Some(self.at(at, id).append_reply(msg@)),
            ) == Some(ev),
        ensures
            self.genuine(k, p, Event::Action(ev)),
    {
        assert(self.sound_step(sent));
        assert(self.sound_step(at));
        self.peers_stay_valid(sent, p);
        self.senders_are_elected(sent, p);
        assert(self.at(sent, p).heartbeat_ready(id));
        if self.at(at, id).append_conflict(msg@) is None {
            assert(self.accepts(at, id, p, sent));
        }
    }
}

} // verus!
