//! What the answers to a round of requests lead to.
use vstd::prelude::*;

use crate::event::ActionEv;
use crate::rounds::{AppendCallView, AppendRound, VoteRound};
use crate::service::{AppendEntriesReply, RequestVoteReply};

verus! {

/// A majority is more than half of the peers, whether their number is even or odd.
pub proof fn majority_is_more_than_half(votes: int, total: int)
    ensures
        VoteRound::majority(votes, total) <==> votes + votes > total,
{
}

/// An open round counts a vote, and has found the winner with the vote that makes more than half
/// of them. A refusal that shows a higher term, and a request that fails, end it; another refusal
/// changes nothing. A round that has ended takes no notice of anything.
pub proof fn vote_round_takes_one_answer(r: VoteRound, answer: Option<RequestVoteReply>)
    requires
        r.valid(),
    ensures
        ({
            let t = r.after(answer);
            &&& t.term == r.term && t.total == r.total
            &&& !r.open ==> t == r && r.report(answer) is None
            &&& r.open ==> match answer {
                Some(rep) if rep.vote_granted => {
                    &&& t.votes == r.votes + 1
                    &&& t.open <==> 2 * (r.votes + 1) <= r.total
                    &&& r.report(answer) == if 2 * (r.votes + 1) > r.total {
                        Some(ActionEv::BecomeLeader(r.term))
                    } else {
                        None
                    }
                },
                Some(rep) => {
                    &&& t.votes == r.votes
                    &&& t.open <==> rep.term <= r.term
                    &&& r.report(answer) == if rep.term > r.term {
                        Some(ActionEv::FoundNewTerm(rep.term))
                    } else {
                        None
                    }
                },
                None => t.votes == r.votes && !t.open && r.report(answer) is None,
            }
        }),
{
}

/// A round can take answers as long as an open one has no majority beyond the candidate's own
/// vote.
pub proof fn vote_round_is_valid_until_won(r: VoteRound)
    ensures
        r.valid() <==> r.votes >= 1 && (r.open && r.votes > 1 ==> 2 * r.votes <= r.total),
{
}

/// Whether the answers so far leave an election open: none of them is that of a request that
/// failed, none of them shows a higher term along with a refusal, and none of the votes makes more
/// than half of them.
pub open spec fn undecided(
    term: u64,
    total: usize,
    answers: Seq<Option<RequestVoteReply>>,
) -> bool {
    forall|j: int|
        0 <= j < answers.len() ==> match #[trigger] answers[j] {
            Some(rep) if rep.vote_granted => 2 * (1 + crate::laws::election::granted(
                answers.take(j + 1),
            )) <= total,
            Some(rep) => rep.term <= term,
            None => false,
        }
}

/// An election stays open exactly as long as its answers leave it undecided, and counts every vote
/// until then.
pub proof fn vote_round_is_open_until_decided(
    term: u64,
    total: usize,
    answers: Seq<Option<RequestVoteReply>>,
)
    ensures
        ({
            let r = (VoteRound { term, votes: 1, total, open: true }).after_all(answers);
            &&& r.valid()
            &&& r.term == term && r.total == total
            &&& r.open <==> undecided(term, total, answers)
            &&& r.open ==> r.votes == 1 + crate::laws::election::granted(answers)
        }),
    decreases answers.len(),
{
    let start = VoteRound { term, votes: 1, total, open: true };
    if answers.len() > 0 {
        let n = answers.len() - 1;
        let fewer = answers.drop_last();
        let answer = answers.last();
        vote_round_is_open_until_decided(term, total, fewer);
        vote_round_takes_one_answer(start.after_all(fewer), answer);
        assert(answers.take(n + 1) =~= answers);
        assert(answers[n] == answer);
        assert forall|j: int| 0 <= j < n implies #[trigger] fewer[j] == answers[j] && fewer.take(
            j + 1,
        ) == answers.take(j + 1) by {
            assert(fewer.take(j + 1) =~= answers.take(j + 1));
        }
        if undecided(term, total, answers) {
            assert forall|j: int| 0 <= j < fewer.len() implies match #[trigger] fewer[j] {
                Some(rep) if rep.vote_granted => 2 * (1 + crate::laws::election::granted(
                    fewer.take(j + 1),
                )) <= total,
                Some(rep) => rep.term <= term,
                None => false,
            } by {
                assert(answers[j] == fewer[j]);
            }
        }
        if start.after_all(answers).open {
            assert forall|j: int| 0 <= j < answers.len() implies match #[trigger] answers[j] {
                Some(rep) if rep.vote_granted => 2 * (1 + crate::laws::election::granted(
                    answers.take(j + 1),
                )) <= total,
                Some(rep) => rep.term <= term,
                None => false,
            } by {
                if j < n {
                    assert(answers[j] == fewer[j]);
                }
            }
        }
    }
}

/// An election that was undecided is won by the very vote that makes more than half of them, and
/// is given up at the very refusal that shows a higher term. No other answer is reported.
pub proof fn decisive_answer_is_reported(
    term: u64,
    total: usize,
    answers: Seq<Option<RequestVoteReply>>,
    answer: Option<RequestVoteReply>,
)
    ensures
        ({
            let r = (VoteRound { term, votes: 1, total, open: true }).after_all(answers);
            let ev = r.report(answer);
            &&& !undecided(term, total, answers) ==> ev is None
            &&& undecided(term, total, answers) ==> match answer {
                Some(rep) if rep.vote_granted => if 2 * (2 + crate::laws::election::granted(
                    answers,
                )) > total {
                    ev == Some(ActionEv::BecomeLeader(term))
                } else {
                    ev is None
                },
                Some(rep) if rep.term > term => ev == Some(ActionEv::FoundNewTerm(rep.term)),
                _ => ev is None,
            }
        }),
{
    vote_round_is_open_until_decided(term, total, answers);
    let start = VoteRound { term, votes: 1, total, open: true };
    vote_round_takes_one_answer(start.after_all(answers), answer);
}

impl AppendRound {
    /// The round after a sequence of answers.
    pub open spec fn after_all(self, answers: Seq<Option<AppendEntriesReply>>) -> AppendRound
        decreases answers.len(),
    {
        if answers.len() == 0 {
            self
        } else {
            self.after_all(answers.drop_last()).after(answers.last())
        }
    }
}

/// Every answer to a heartbeat counts: as long as no request fails, each of them is reported as if
/// it were the first one. Once a request has failed, nothing is reported any more.
pub proof fn every_answer_counts(
    r: AppendRound,
    answers: Seq<Option<AppendEntriesReply>>,
    call: AppendCallView,
    answer: Option<AppendEntriesReply>,
)
    ensures
        ({
            let t = r.after_all(answers);
            &&& (forall|j: int| 0 <= j < answers.len() ==> (#[trigger] answers[j]) is Some) ==> {
                &&& t == r
                &&& t.report(call, answer) == r.report(call, answer)
            }
            &&& (exists|j: int| 0 <= j < answers.len() && (#[trigger] answers[j]) is None) ==> {
                &&& !t.open
                &&& t.report(call, answer) is None
            }
        }),
    decreases answers.len(),
{
    if answers.len() > 0 {
        let n = answers.len() - 1;
        let fewer = answers.drop_last();
        every_answer_counts(r, fewer, call, answer);
        assert(answers[n] == answers.last());
        assert forall|j: int| 0 <= j < n implies #[trigger] fewer[j] == answers[j] by {}
        if exists|j: int| 0 <= j < answers.len() && (#[trigger] answers[j]) is None {
            let j = choose|j: int| 0 <= j < answers.len() && (#[trigger] answers[j]) is None;
            if j < n {
                assert(fewer[j] is None);
            }
        }
    }
}

/// An open round reports an acceptance with the index of the last entry that the request vouches
/// for, a refusal by a peer of a higher term with that term, and another refusal with the index
/// that it names. All of it goes under the term of the heartbeat, and under the peer that was
/// asked. A request that has failed is not reported, and neither is anything to a round that has
/// ended.
pub proof fn answer_is_reported_as_it_is(
    r: AppendRound,
    call: AppendCallView,
    answer: Option<AppendEntriesReply>,
)
    requires
        call.args.prev_log_index as usize + call.args.entries.len() <= usize::MAX,
    ensures
        match answer {
            Some(rep) if r.open => match (r.report(call, answer), rep.conflict) {
                (Some(ActionEv::UpdatePeer(term, id, Ok(idx))), None) => {
                    &&& term == r.term
                    &&& id == call.id
                    &&& idx == call.args.prev_log_index as usize + call.args.entries.len()
                },
                (Some(ActionEv::FoundNewTerm(term)), Some(_)) => term == rep.term && rep.term
                    > r.term,
                (Some(ActionEv::UpdatePeer(term, id, Err(idx))), Some(conflict)) => {
                    &&& rep.term <= r.term
                    &&& term == r.term
                    &&& id == call.id
                    &&& idx == conflict.log_index as usize
                },
                _ => false,
            },
            _ => r.report(call, answer) is None,
        },
        r.after(answer).term == r.term,
        r.after(answer).open <==> r.open && answer is Some,
        call.match_index() == call.args.prev_log_index as usize + call.args.entries.len(),
{
}

} // verus!
