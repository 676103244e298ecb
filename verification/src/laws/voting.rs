//! What becomes of a request for a vote.
use vstd::prelude::*;

use crate::event::{ActionEv, Event, Reply, SendsView, Step, TimeoutEv};
use crate::model::RaftView;
use crate::peer::Role;
use crate::service::RequestVoteArgs;

verus! {

/// A log is ahead of one that ends with `index` in `term` if its last entry is of a later term,
/// or of the same term and has a greater index. An empty log is ahead of none.
pub proof fn newer_log_ends_later(s: RaftView, term: u64, index: u64)
    ensures
        s.log.len() == 0 ==> !s.is_newer(term, index),
        s.log.len() > 0 && s.log.last().term > term ==> s.is_newer(term, index),
        s.log.len() > 0 && s.log.last().term < term ==> !s.is_newer(term, index),
        s.log.len() > 0 && s.log.last().term == term ==> (s.is_newer(term, index)
            <==> s.log.last().index > index),
{
}

/// A vote that can be given is given. A candidate whose term is not behind, and whose log ends
/// where this one ends or later, gets the vote, if its term is a higher one or if nobody else
/// has the vote. The peer keeps the vote in mind, is in the term of the candidate, follows, and
/// lets its election timer run anew.
pub proof fn vote_is_given_where_it_can_be(s: RaftView, args: RequestVoteArgs)
    requires
        args.term >= s.term,
        s.log.len() > 0 ==> s.log.last().term < args.last_log_term || s.log.last().term
            == args.last_log_term && s.log.last().index <= args.last_log_index,
        args.term > s.term || s.voted_for is None || s.voted_for == Some(
            args.candidate_id as usize,
        ),
    ensures
        ({
            let ev = Event::Action(ActionEv::RequestVote(args));
            let t = s.next(ev);
            &&& s.vote_reply(args).vote_granted
            &&& s.after_request_vote(args).voted_for == Some(args.candidate_id as usize)
            &&& s.after_request_vote(args).term == args.term
            &&& s.effects(ev).reply matches Some(Reply::Vote(rep)) && rep.vote_granted
            &&& t.voted_for == Some(args.candidate_id as usize)
            &&& t.term == args.term
            &&& t.role == Role::Follower
            &&& !t.is_leader
            &&& s.step(ev) == Step::Rearm(TimeoutEv::Election)
        }),
{
}

/// No other vote is given: a candidate that gets the vote is in no earlier term, has a log that
/// ends no earlier, and takes the vote from nobody in the same term. One that does not get it
/// changes nothing but the term, and neither the role nor the timer.
pub proof fn no_other_vote_is_given(s: RaftView, args: RequestVoteArgs)
    ensures
        ({
            let ev = Event::Action(ActionEv::RequestVote(args));
            let t = s.next(ev);
            &&& s.vote_reply(args).vote_granted ==> {
                &&& args.term >= s.term
                &&& s.log.len() > 0 ==> s.log.last().term < args.last_log_term
                    || s.log.last().term == args.last_log_term && s.log.last().index
                    <= args.last_log_index
                &&& args.term == s.term ==> s.voted_for is None || s.voted_for == Some(
                    args.candidate_id as usize,
                )
            }
            &&& !s.vote_reply(args).vote_granted ==> {
                &&& s.after_request_vote(args).voted_for == s.voted_for
                &&& t.voted_for == s.voted_for
                &&& t.role == s.role
                &&& t.is_leader == s.is_leader
                &&& s.step(ev) == Step::GoOn
            }
        }),
{
}

/// Whatever comes of it, the answer says so and carries the term from before; the peer is then in
/// the later one of the two terms, and all else stays as it was.
pub proof fn request_for_vote_changes_only_term_and_vote(s: RaftView, args: RequestVoteArgs)
    ensures
        ({
            let ev = Event::Action(ActionEv::RequestVote(args));
            let t = s.next(ev);
            let u = s.after_request_vote(args);
            &&& s.vote_reply(args).term == s.term
            &&& s.effects(ev).reply == Some(Reply::Vote(s.vote_reply(args)))
            &&& s.effects(ev).apply is None
            &&& s.effects(ev).sends == SendsView::Nothing
            &&& args.term > s.term ==> t.term == args.term && u.term == args.term
            &&& args.term <= s.term ==> t.term == s.term && u.term == s.term
            &&& t == RaftView {
                term: t.term,
                voted_for: t.voted_for,
                role: t.role,
                is_leader: t.is_leader,
                ..s
            }
            &&& u == RaftView { term: u.term, voted_for: u.voted_for, ..s }
            &&& t.voted_for == u.voted_for
            &&& s.ready_for(ev)
        }),
{
}

/// A request that is granted and comes again is granted again, and one of another candidate of
/// the same term is not.
pub proof fn vote_stays_with_its_candidate(
    s: RaftView,
    args: RequestVoteArgs,
    other: RequestVoteArgs,
)
    requires
        s.vote_reply(args).vote_granted,
        other.term == args.term,
    ensures
        ({
            let t = s.next(Event::Action(ActionEv::RequestVote(args)));
            &&& t.vote_reply(args).vote_granted
            &&& t.next(Event::Action(ActionEv::RequestVote(args))) == t
            &&& other.candidate_id as usize != args.candidate_id as usize
                ==> !t.vote_reply(other).vote_granted
        }),
{
}

/// The further a candidate has come, the better for it: whoever gets the vote would get it with
/// a later term or a later log as well.
pub proof fn better_candidate_gets_vote_too(
    s: RaftView,
    args: RequestVoteArgs,
    better: RequestVoteArgs,
)
    requires
        s.vote_reply(args).vote_granted,
        better.candidate_id == args.candidate_id,
        better.term >= args.term,
        better.last_log_term > args.last_log_term || better.last_log_term == args.last_log_term
            && better.last_log_index >= args.last_log_index,
    ensures
        s.vote_reply(better).vote_granted,
{
}

/// A candidate gets the vote of every peer that is in no later term than the candidate was, and
/// whose log does not end after the candidate's.
pub proof fn campaign_wins_votes(candidate: RaftView, voter: RaftView)
    requires
        candidate.valid(),
        candidate.term < u64::MAX,
        voter.term <= candidate.term,
        voter.log.len() == 0 || candidate.log.len() > 0 && (voter.log.last().term
            < candidate.log.last().term || voter.log.last().term == candidate.log.last().term
            && voter.log.last().index <= candidate.log.len()),
    ensures
        ({
            let ev = Event::Timeout(TimeoutEv::Election);
            &&& candidate.effects(ev).sends matches SendsView::Votes(call) && {
                &&& voter.vote_reply(call.args).vote_granted
                &&& voter.after_request_vote(call.args).voted_for == Some(
                    call.args.candidate_id as usize,
                )
                &&& voter.after_request_vote(call.args).term == candidate.next(ev).term
            }
        }),
{
}

/// Standing for election puts a peer into the next term, with its own vote. It asks every other
/// peer, once each, in the order of their places; the request tells where its log ends. The
/// round that counts the answers starts with that one vote.
pub proof fn candidate_asks_everyone(s: RaftView)
    requires
        s.valid(),
        s.term < u64::MAX,
    ensures
        ({
            let ev = Event::Timeout(TimeoutEv::Election);
            let t = s.next(ev);
            &&& s.ready_for(ev)
            &&& t.role == Role::Candidate
            &&& t.term == s.term + 1
            &&& t.voted_for == Some(s.me)
            &&& t == RaftView { role: t.role, term: t.term, voted_for: t.voted_for, ..s }
            &&& s.step(ev) == Step::Rearm(TimeoutEv::Election)
            &&& s.effects(ev).reply is None
            &&& s.effects(ev).apply is None
            &&& s.effects(ev).sends matches SendsView::Votes(call) && {
                &&& call.args.term == s.term + 1
                &&& call.args.candidate_id == s.me
                &&& call.args.last_log_index == s.log.len()
                &&& s.log.len() == 0 ==> call.args.last_log_term == 0
                &&& s.log.len() > 0 ==> call.args.last_log_term == s.log.last().term
                &&& call.round.term == s.term + 1
                &&& call.round.votes == 1
                &&& call.round.total == s.peers
                &&& call.round.open
                &&& forall|i: int, j: int|
                    0 <= i < j < call.targets.len() ==> call.targets[i] < call.targets[j]
                &&& forall|id: usize| #[trigger]
                    call.targets.contains(id) <==> id < s.peers && id != s.me
            }
        }),
{
    let targets = s.campaigning().vote_call().targets;
    assert forall|id: usize| #[trigger] targets.contains(id) <==> id < s.peers && id != s.me by {
        if id < s.peers && id != s.me {
            if id < s.me {
                assert(targets[id as int] == id);
            } else {
                assert(targets[id - 1] == id);
            }
        }
    }
}

/// The requests for votes that a peer makes in its term speak of its log, and go to every other
/// peer.
pub proof fn requests_for_votes_speak_of_the_log(s: RaftView)
    requires
        s.valid(),
    ensures
        ({
            let call = s.vote_call();
            &&& call.args.term == s.term
            &&& call.args.candidate_id == s.me
            &&& call.args.last_log_index == s.log.len()
            &&& s.log.len() == 0 ==> call.args.last_log_term == 0
            &&& s.log.len() > 0 ==> call.args.last_log_term == s.log.last().term
            &&& call.round.term == s.term
            &&& call.round.votes == 1
            &&& call.round.total == s.peers
            &&& call.round.open
            &&& forall|i: int, j: int|
                0 <= i < j < call.targets.len() ==> call.targets[i] < call.targets[j]
            &&& forall|id: usize| #[trigger]
                call.targets.contains(id) <==> id < s.peers && id != s.me
        }),
{
    crate::laws::election::every_other_peer_is_asked(s);
}

} // verus!
