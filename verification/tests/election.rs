use raft::{
    ActionEv, AppendEntriesArgs, Entry, Event, Raft, Reply, RequestVoteArgs, RequestVoteReply,
    Role, Sends, Step, TimeoutEv, VoteRound,
};

fn entry(term: u64, index: u64) -> Entry {
    Entry { term, index, command: vec![index as u8] }
}

fn peer_with_log(terms: &[u64]) -> Raft {
    let mut raft = Raft::new(3, 0, &[]);
    for (i, term) in terms.iter().enumerate() {
        raft.log.push(entry(*term, i as u64 + 1));
    }
    raft
}

fn ask(term: u64, candidate_id: u64, last_log_term: u64, last_log_index: u64) -> RequestVoteArgs {
    RequestVoteArgs { term, candidate_id, last_log_index, last_log_term }
}

fn yes(term: u64) -> Option<RequestVoteReply> {
    Some(RequestVoteReply { term, vote_granted: true })
}

fn no(term: u64) -> Option<RequestVoteReply> {
    Some(RequestVoteReply { term, vote_granted: false })
}

#[test]
fn bytes_that_were_never_saved_change_nothing() {
    let raft = Raft::new(3, 1, &[1, 2, 3]);
    assert_eq!(raft.me, 1);
    assert_eq!(raft.peers, 3);
    assert_eq!(raft.role, Role::Follower);
    assert!(!raft.is_leader);
    assert_eq!(raft.current_term, 0);
    assert_eq!(raft.voted_for, None);
    assert!(raft.log.is_empty());
    assert_eq!(raft.next_index, vec![0, 0, 0]);
    assert_eq!(raft.match_index, vec![0, 0, 0]);
}

#[test]
fn logs_are_compared_by_term_and_then_by_index() {
    let raft = peer_with_log(&[1, 3]);
    assert!(raft.is_newer(2, 9));
    assert!(raft.is_newer(3, 1));
    assert!(!raft.is_newer(3, 2));
    assert!(!raft.is_newer(4, 1));
    let empty = peer_with_log(&[]);
    assert!(!empty.is_newer(0, 0));
}

#[test]
fn vote_goes_to_one_candidate_per_term() {
    let mut raft = peer_with_log(&[]);
    let rep = raft.handle_request_vote(ask(2, 1, 0, 0));
    assert_eq!(rep, RequestVoteReply { term: 0, vote_granted: true });
    assert_eq!(raft.current_term, 2);
    assert_eq!(raft.voted_for, Some(1));
    assert!(!raft.handle_request_vote(ask(2, 2, 0, 0)).vote_granted);
    assert!(raft.handle_request_vote(ask(2, 1, 0, 0)).vote_granted);
    assert!(raft.handle_request_vote(ask(3, 2, 0, 0)).vote_granted);
    assert_eq!(raft.voted_for, Some(2));
}

#[test]
fn stale_candidate_gets_current_term() {
    let mut raft = peer_with_log(&[]);
    raft.current_term = 5;
    let rep = raft.handle_request_vote(ask(4, 1, 9, 9));
    assert_eq!(rep, RequestVoteReply { term: 5, vote_granted: false });
    assert_eq!(raft.current_term, 5);
    assert_eq!(raft.voted_for, None);
}

#[test]
fn outdated_candidate_still_raises_term() {
    let mut raft = peer_with_log(&[1, 2]);
    raft.current_term = 2;
    raft.voted_for = Some(0);
    let (effects, step) = raft.handle_event(Event::Action(ActionEv::RequestVote(ask(4, 1, 1, 7))));
    assert_eq!(
        effects.reply,
        Some(Reply::Vote(RequestVoteReply { term: 2, vote_granted: false }))
    );
    assert_eq!(step, Step::GoOn);
    assert_eq!(raft.current_term, 4);
    assert_eq!(raft.voted_for, Some(0));
}

#[test]
fn granted_vote_makes_follower() {
    let mut raft = peer_with_log(&[]);
    raft.role = Role::Leader;
    raft.is_leader = true;
    let (_, step) = raft.handle_event(Event::Action(ActionEv::RequestVote(ask(1, 2, 0, 0))));
    assert_eq!(step, Step::Rearm(TimeoutEv::Election));
    assert_eq!(raft.role, Role::Follower);
    assert!(!raft.is_leader);
}

#[test]
fn election_timeout_starts_campaign() {
    let mut raft = peer_with_log(&[1, 1]);
    raft.me = 1;
    raft.current_term = 3;
    let (effects, step) = raft.handle_event(Event::Timeout(TimeoutEv::Election));
    assert_eq!(step, Step::Rearm(TimeoutEv::Election));
    assert_eq!(raft.role, Role::Candidate);
    assert_eq!(raft.current_term, 4);
    assert_eq!(raft.voted_for, Some(1));
    match effects.sends {
        Sends::Votes(call) => {
            assert_eq!(call.targets, vec![0, 2]);
            assert_eq!(call.args, ask(4, 1, 1, 2));
            assert_eq!(call.round, VoteRound::new(4, 3));
        }
        other => panic!("unexpected {:?}", other),
    }
}

#[test]
fn peer_outside_the_list_asks_everyone() {
    let mut raft = Raft::new(2, 5, &[]);
    let call = raft.become_candidate();
    assert_eq!(call.targets, vec![0, 1]);
}

#[test]
fn last_term_is_not_accepted_for_election() {
    let mut raft = peer_with_log(&[]);
    assert!(raft.accepts(&Event::Timeout(TimeoutEv::Election)));
    raft.current_term = u64::MAX;
    assert!(!raft.accepts(&Event::Timeout(TimeoutEv::Election)));
}

#[test]
fn round_is_won_by_the_vote_that_completes_a_majority() {
    let mut round = VoteRound::new(7, 5);
    assert!(round.on_response(yes(6)).is_none());
    assert!(round.on_response(no(7)).is_none());
    assert!(matches!(round.on_response(yes(6)), Some(ActionEv::BecomeLeader(7))));
    assert!(!round.open);
    assert!(round.on_response(yes(6)).is_none());
    assert!(round.on_response(no(9)).is_none());
}

#[test]
fn round_of_two_needs_the_other_vote() {
    let mut round = VoteRound::new(1, 2);
    assert!(matches!(round.on_response(yes(0)), Some(ActionEv::BecomeLeader(1))));
}

#[test]
fn round_ends_at_a_higher_term() {
    let mut round = VoteRound::new(7, 5);
    assert!(matches!(round.on_response(no(8)), Some(ActionEv::FoundNewTerm(8))));
    assert!(round.on_response(yes(7)).is_none());
    assert!(round.on_response(yes(7)).is_none());
}

#[test]
fn round_ends_at_a_failed_request() {
    let mut round = VoteRound::new(7, 3);
    assert!(round.on_response(None).is_none());
    assert!(round.on_response(yes(7)).is_none());
    assert!(!round.open);
}

#[test]
fn winner_takes_over_in_its_own_term_only() {
    let mut raft = peer_with_log(&[1, 1]);
    raft.current_term = 4;
    let (_, step) = raft.handle_event(Event::Action(ActionEv::BecomeLeader(3)));
    assert_eq!(step, Step::GoOn);
    assert_eq!(raft.role, Role::Follower);
    let (_, step) = raft.handle_event(Event::Action(ActionEv::BecomeLeader(4)));
    assert_eq!(step, Step::Rearm(TimeoutEv::Heartbeat));
    assert_eq!(raft.role, Role::Leader);
    assert!(raft.is_leader);
    assert_eq!(raft.next_index, vec![3, 3, 3]);
    assert_eq!(raft.match_index, vec![0, 0, 0]);
}

#[test]
fn higher_term_makes_follower() {
    let mut raft = peer_with_log(&[]);
    raft.current_term = 4;
    raft.become_leader();
    let (_, step) = raft.handle_event(Event::Action(ActionEv::FoundNewTerm(4)));
    assert_eq!(step, Step::GoOn);
    assert!(raft.is_leader);
    let (_, step) = raft.handle_event(Event::Action(ActionEv::FoundNewTerm(5)));
    assert_eq!(step, Step::Rearm(TimeoutEv::Election));
    assert!(!raft.is_leader);
    assert_eq!(raft.current_term, 4);
}

#[test]
fn election_among_three_peers() {
    let mut peers: Vec<Raft> = (0..3).map(|me| Raft::new(3, me, &[])).collect();
    let (effects, _) = peers[0].handle_event(Event::Timeout(TimeoutEv::Election));
    let (args, targets, mut round) = match effects.sends {
        Sends::Votes(call) => (call.args, call.targets, call.round),
        other => panic!("unexpected {:?}", other),
    };
    let rep = peers[targets[0]].handle_request_vote(args);
    assert!(rep.vote_granted);
    match round.on_response(Some(rep)) {
        Some(ev) => {
            peers[0].handle_event(Event::Action(ev));
        }
        None => panic!("no majority"),
    }
    assert!(peers[0].is_leader);
    // The rival of the same term cannot win the same peer over.
    let (effects, _) = peers[2].handle_event(Event::Timeout(TimeoutEv::Election));
    match effects.sends {
        Sends::Votes(call) => {
            assert_eq!(call.args.term, 1);
            assert!(!peers[1].handle_request_vote(call.args).vote_granted);
            assert!(!peers[0].handle_request_vote(call.args).vote_granted);
        }
        other => panic!("unexpected {:?}", other),
    }
}

#[test]
fn candidate_follows_a_leader_of_its_term() {
    let mut raft = peer_with_log(&[]);
    raft.become_candidate();
    let args = AppendEntriesArgs { term: 1, leader_id: 2, ..Default::default() };
    let (_, step) = raft.handle_event(Event::Action(ActionEv::AppendEntries(args)));
    assert_eq!(step, Step::Rearm(TimeoutEv::Election));
    assert_eq!(raft.role, Role::Follower);
}

#[test]
fn reported_winner_has_the_votes_of_a_majority() {
    let mut peers: Vec<Raft> = (0..5).map(|me| Raft::new(5, me, &[])).collect();
    // Peer 1 has voted already, and the log of peer 2 is ahead.
    peers[1].handle_request_vote(ask(1, 4, 0, 0));
    peers[2].log.push(entry(1, 1));
    let (effects, _) = peers[0].handle_event(Event::Timeout(TimeoutEv::Election));
    let call = match effects.sends {
        Sends::Votes(call) => call,
        other => panic!("unexpected {:?}", other),
    };
    assert_eq!(call.targets, vec![1, 2, 3, 4]);
    let mut round = call.round;
    let mut voters = Vec::new();
    let mut reports = Vec::new();
    for i in call.targets {
        let reply = peers[i].handle_request_vote(call.args);
        if reply.vote_granted {
            voters.push(i);
        }
        if let Some(ev) = round.on_response(Some(reply)) {
            reports.push((i, format!("{:?}", ev)));
        }
    }
    assert_eq!(voters, vec![3, 4]);
    assert_eq!(reports, vec![(4, "BecomeLeader(1)".to_string())]);
    for i in voters {
        assert_eq!((peers[i].current_term, peers[i].voted_for), (1, Some(0)));
    }
    assert_eq!((peers[0].current_term, peers[0].voted_for), (1, Some(0)));
}
