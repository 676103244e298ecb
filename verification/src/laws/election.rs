//! Terms, votes and elections.
use vstd::prelude::*;

use crate::event::{ActionEv, Event};
use crate::laws::run::Run;
use crate::model::RaftView;
use crate::rounds::VoteRound;
use crate::service::{RequestVoteArgs, RequestVoteReply};

verus! {

/// The term of a peer never falls.
pub proof fn term_never_falls(s: RaftView, ev: Event)
    requires
        s.ready_for(ev),
    ensures
        s.next(ev).term >= s.term,
{
}

/// A peer that has voted in a term either remembers that vote or has left the term.
proof fn vote_is_remembered(run: Run, i: int, k: int, term: u64, candidate: usize)
    requires
        run.valid(),
        run.votes(i, term, candidate),
        i < k <= run.turns.len(),
    ensures
        ({
            let s = run.states[k];
            s.term > term || s.term == term && s.voted_for == Some(candidate)
        }),
    decreases k,
{
    assert(run.linked(k - 1));
    if k - 1 > i {
        vote_is_remembered(run, i, k - 1, term, candidate);
    }
}

/// A peer votes for at most one candidate in each term, itself included, and through crashes.
pub proof fn one_vote_per_term(run: Run, i: int, j: int, term: u64, a: usize, b: usize)
    requires
        run.valid(),
        run.votes(i, term, a),
        run.votes(j, term, b),
    ensures
        a == b,
{
    if i < j {
        vote_is_remembered(run, i, j, term, a);
    } else if j < i {
        vote_is_remembered(run, j, i, term, b);
    }
}

/// Any two majorities of the same peers have a peer in common.
pub proof fn majorities_meet(total: nat, p: Set<int>, q: Set<int>)
    requires
        p.subset_of(vstd::set_lib::set_int_range(0, total as int)),
        q.subset_of(vstd::set_lib::set_int_range(0, total as int)),
        VoteRound::majority(p.len() as int, total as int),
        VoteRound::majority(q.len() as int, total as int),
    ensures
        exists|i: int| p.contains(i) && q.contains(i),
{
    let all = vstd::set_lib::set_int_range(0, total as int);
    vstd::set_lib::lemma_int_range(0, total as int);
    vstd::set_lib::lemma_len_subset(p, all);
    vstd::set_lib::lemma_len_subset(q, all);
    if forall|i: int| !(p.contains(i) && q.contains(i)) {
        assert(p.disjoint(q));
        vstd::set_lib::lemma_set_disjoint_lens(p, q);
        assert((p + q).subset_of(all));
        vstd::set_lib::lemma_len_subset(p + q, all);
    }
}

/// At most one candidate wins the votes of a majority in a term.
/// `granted_a` and `granted_b` are the peers that grant the requests of `a` and of `b`; each
/// candidate votes for itself as well.
pub proof fn one_winner_per_term(
    runs: Seq<Run>,
    term: u64,
    a: usize,
    granted_a: Set<int>,
    b: usize,
    granted_b: Set<int>,
)
    requires
        forall|i: int| 0 <= i < runs.len() ==> (#[trigger] runs[i]).valid(),
        a < runs.len(),
        b < runs.len(),
        runs[a as int].ever_votes(term, a),
        runs[b as int].ever_votes(term, b),
        granted_a.finite() && granted_b.finite(),
        forall|i: int| #[trigger]
            granted_a.contains(i) ==> 0 <= i < runs.len() && i != a && runs[i].ever_votes(term, a),
        forall|i: int| #[trigger]
            granted_b.contains(i) ==> 0 <= i < runs.len() && i != b && runs[i].ever_votes(term, b),
        VoteRound::majority((1 + granted_a.len()) as int, runs.len() as int),
        VoteRound::majority((1 + granted_b.len()) as int, runs.len() as int),
    ensures
        a == b,
{
    let p = granted_a.insert(a as int);
    let q = granted_b.insert(b as int);
    assert(!granted_a.contains(a as int));
    assert(!granted_b.contains(b as int));
    majorities_meet(runs.len(), p, q);
    let i = choose|i: int| p.contains(i) && q.contains(i);
    let run = runs[i];
    let j = choose|j: int| run.votes(j, term, a);
    let k = choose|k: int| run.votes(k, term, b);
    one_vote_per_term(run, j, k, term, a, b);
}

/// A candidate asks every other peer for its vote, once, and not itself.
pub proof fn every_other_peer_is_asked(s: RaftView)
    ensures
        s.vote_call().targets.no_duplicates(),
        forall|i: usize| #[trigger]
            s.vote_call().targets.contains(i) <==> i < s.peers && i != s.me,
{
    let targets = s.vote_call().targets;
    assert forall|i: usize| i < s.peers && i != s.me implies #[trigger] targets.contains(i) by {
        if i < s.me {
            assert(targets[i as int] == i);
        } else {
            assert(targets[i - 1] == i);
        }
    }
}

/// A request for a vote from a term that has passed is refused, is answered with the current
/// term, and changes nothing.
pub proof fn stale_candidate_is_refused(s: RaftView, args: RequestVoteArgs)
    requires
        args.term < s.term,
    ensures
        s.vote_reply(args) == (RequestVoteReply { term: s.term, vote_granted: false }),
        s.next(Event::Action(ActionEv::RequestVote(args))) == s,
{
}

/// A vote is never granted to a candidate whose log is behind.
pub proof fn outdated_candidate_is_refused(s: RaftView, args: RequestVoteArgs)
    requires
        s.last_log_term() > args.last_log_term || s.last_log_term() == args.last_log_term
            && s.last_entry_index() > args.last_log_index,
    ensures
        !s.vote_reply(args).vote_granted,
{
}

impl VoteRound {
    /// The round after a sequence of answers.
    pub open spec fn after_all(self, answers: Seq<Option<RequestVoteReply>>) -> VoteRound
        decreases answers.len(),
    {
        if answers.len() == 0 {
            self
        } else {
            self.after_all(answers.drop_last()).after(answers.last())
        }
    }
}

/// How many of the answers grant a vote.
pub open spec fn granted(answers: Seq<Option<RequestVoteReply>>) -> nat
    decreases answers.len(),
{
    if answers.len() == 0 {
        0
    } else {
        granted(answers.drop_last()) + match answers.last() {
            Some(rep) if rep.vote_granted => 1nat,
            _ => 0nat,
        }
    }
}

/// An open round has counted all answers.
proof fn open_round_counts(term: u64, total: usize, answers: Seq<Option<RequestVoteReply>>)
    ensures
        ({
            let r = (VoteRound { term, votes: 1, total, open: true }).after_all(answers);
            &&& r.valid()
            &&& r.term == term && r.total == total
            &&& r.open ==> r.votes == 1 + granted(answers)
        }),
    decreases answers.len(),
{
    if answers.len() > 0 {
        open_round_counts(term, total, answers.drop_last());
    }
}

/// An election is reported as won only in its own term, and only when the votes granted so far,
/// with the candidate's own, are a majority. It is reported by the very answer that completes
/// the majority, unless the round has ended before.
pub proof fn won_round_has_majority(
    term: u64,
    total: usize,
    answers: Seq<Option<RequestVoteReply>>,
    answer: Option<RequestVoteReply>,
)
    ensures
        ({
            let r = (VoteRound { term, votes: 1, total, open: true }).after_all(answers);
            let majority = VoteRound::majority(
                (1 + granted(answers.push(answer))) as int,
                total as int,
            );
            &&& forall|t: u64|
                r.report(answer) == Some(ActionEv::BecomeLeader(t)) ==> t == term && majority
            &&& r.open && majority && answer is Some && answer->0.vote_granted ==> r.report(answer)
                == Some(ActionEv::BecomeLeader(term))
        }),
{
    open_round_counts(term, total, answers);
    assert(answers.push(answer).drop_last() =~= answers);
}

/// A round that has ended stays as it is and reports nothing.
proof fn ended_round_is_silent(r: VoteRound, answers: Seq<Option<RequestVoteReply>>)
    requires
        !r.open,
    ensures
        r.after_all(answers) == r,
    decreases answers.len(),
{
    if answers.len() > 0 {
        ended_round_is_silent(r, answers.drop_last());
    }
}

/// A round reports at most one event, whatever answers follow.
pub proof fn round_reports_once(
    r: VoteRound,
    answer: Option<RequestVoteReply>,
    more: Seq<Option<RequestVoteReply>>,
    last: Option<RequestVoteReply>,
)
    requires
        r.report(answer) is Some,
    ensures
        r.after(answer).after_all(more).report(last) is None,
{
    ended_round_is_silent(r.after(answer), more);
}

} // verus!
