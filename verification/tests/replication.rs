use raft::{
    ActionEv, AppendCall, AppendEntriesArgs, AppendEntriesReply, AppendRound, Entry,
    EntryConflict, Event, Raft, Reply, Role, Sends, Step, TimeoutEv,
};

fn entry(term: u64, index: u64) -> Entry {
    Entry { term, index, command: vec![term as u8, index as u8] }
}

fn log(terms: &[u64]) -> Vec<Entry> {
    terms.iter().enumerate().map(|(i, term)| entry(*term, i as u64 + 1)).collect()
}

fn peer_with_log(me: usize, term: u64, terms: &[u64]) -> Raft {
    let mut raft = Raft::new(3, me, &[]);
    raft.current_term = term;
    raft.log = log(terms);
    raft
}

fn append(term: u64, prev: (u64, u64), terms: &[u64], leader_commit: u64) -> AppendEntriesArgs {
    let entries = terms
        .iter()
        .enumerate()
        .map(|(i, term)| entry(*term, prev.0 + i as u64 + 1))
        .collect();
    AppendEntriesArgs {
        term,
        leader_id: 1,
        prev_log_index: prev.0,
        prev_log_term: prev.1,
        entries,
        leader_commit,
    }
}

fn conflict(log_index: u64, log_term: u64) -> Option<EntryConflict> {
    Some(EntryConflict { log_index, log_term })
}

#[test]
fn conflict_before_the_log() {
    let raft = peer_with_log(0, 1, &[1]);
    assert_eq!(raft.is_conflict(0, 0), None);
    assert_eq!(raft.is_conflict(0, 3), conflict(0, 0));
}

#[test]
fn conflict_beyond_the_log_names_the_next_index() {
    let raft = peer_with_log(0, 1, &[1, 1]);
    assert_eq!(raft.is_conflict(2, 1), None);
    assert_eq!(raft.is_conflict(3, 1), conflict(3, 0));
    assert_eq!(raft.is_conflict(90, 1), conflict(3, 0));
}

#[test]
fn conflict_of_terms_names_the_index_after_the_first_other_term() {
    let raft = peer_with_log(0, 9, &[2, 2, 2]);
    assert_eq!(raft.is_conflict(3, 5), conflict(1, 2));
    let raft = peer_with_log(0, 9, &[1, 1, 4, 4]);
    assert_eq!(raft.is_conflict(4, 5), conflict(2, 4));
    let raft = peer_with_log(0, 9, &[4, 1, 2, 4]);
    assert_eq!(raft.is_conflict(4, 5), conflict(3, 4));
    assert_eq!(raft.is_conflict(1, 5), conflict(1, 4));
}

#[test]
fn stale_leader_is_refused_with_current_term() {
    let mut raft = peer_with_log(0, 3, &[1]);
    let args = append(2, (1, 1), &[2], 1);
    let (effects, step) = raft.handle_event(Event::Action(ActionEv::AppendEntries(args)));
    let rep = AppendEntriesReply { term: 3, conflict: conflict(0, 0) };
    assert_eq!(effects.reply, Some(Reply::Append(rep)));
    assert!(!rep.success());
    assert_eq!(step, Step::GoOn);
    assert_eq!(raft.log, log(&[1]));
    assert_eq!(raft.current_term, 3);
}

#[test]
fn refused_entries_leave_term_and_log() {
    let mut raft = peer_with_log(0, 1, &[1]);
    let rep = raft.handle_append_entries(append(2, (3, 2), &[2], 5));
    assert_eq!(rep, AppendEntriesReply { term: 1, conflict: conflict(2, 0) });
    assert_eq!(raft.current_term, 1);
    assert_eq!(raft.log, log(&[1]));
    assert_eq!(raft.commit_index, 0);
}

#[test]
fn accepted_entries_replace_what_conflicts() {
    let mut raft = peer_with_log(0, 1, &[1, 1, 1]);
    let rep = raft.handle_append_entries(append(2, (1, 1), &[2, 2], 0));
    assert_eq!(rep, AppendEntriesReply { term: 1, conflict: None });
    assert!(rep.success());
    assert_eq!(raft.current_term, 2);
    assert_eq!(raft.log, log(&[1, 2, 2]));
}

#[test]
fn entries_that_are_there_already_change_nothing() {
    let mut raft = peer_with_log(0, 2, &[1, 2, 2]);
    let rep = raft.handle_append_entries(append(2, (0, 0), &[1, 2], 0));
    assert!(rep.success());
    assert_eq!(raft.log, log(&[1, 2, 2]));
}

#[test]
fn commit_index_follows_the_leader_up_to_known_entries() {
    // Entries that were there before count.
    let mut raft = peer_with_log(0, 2, &[1, 2, 2]);
    raft.handle_append_entries(append(2, (1, 1), &[2], 9));
    assert_eq!(raft.commit_index, 2);
    raft.handle_append_entries(append(2, (3, 2), &[], 9));
    assert_eq!(raft.commit_index, 3);
    // Entries that have just been written do not.
    let mut raft = peer_with_log(0, 2, &[1]);
    raft.handle_append_entries(append(2, (1, 1), &[2, 2], 9));
    assert_eq!(raft.log, log(&[1, 2, 2]));
    assert_eq!(raft.commit_index, 1);
    // The leader's own commit index is a limit, too.
    let mut raft = peer_with_log(0, 2, &[1, 2, 2]);
    raft.handle_append_entries(append(2, (3, 2), &[], 2));
    assert_eq!(raft.commit_index, 2);
    raft.handle_append_entries(append(2, (3, 2), &[], 1));
    assert_eq!(raft.commit_index, 2);
}

#[test]
fn commit_index_falls_at_a_short_request() {
    let mut raft = peer_with_log(0, 2, &[1, 2, 2]);
    raft.commit_index = 3;
    raft.handle_append_entries(append(2, (1, 1), &[], 9));
    assert_eq!(raft.commit_index, 1);
}

#[test]
fn heartbeat_probes_until_the_match_is_known() {
    let mut raft = peer_with_log(0, 2, &[1, 2]);
    raft.commit_index = 1;
    raft.become_leader();
    let args = raft.append_entries_args(1);
    assert_eq!(args, append_by(0, 2, (2, 2), vec![], 1));
    raft.next_index[1] = 1;
    let args = raft.append_entries_args(1);
    assert_eq!(args, append_by(0, 2, (0, 0), log(&[1, 2]), 1));
    raft.next_index[1] = 2;
    raft.match_index[1] = 1;
    let args = raft.append_entries_args(1);
    assert_eq!(args, append_by(0, 2, (1, 1), vec![entry(2, 2)], 1));
}

fn append_by(
    leader_id: u64,
    term: u64,
    prev: (u64, u64),
    entries: Vec<Entry>,
    leader_commit: u64,
) -> AppendEntriesArgs {
    AppendEntriesArgs {
        term,
        leader_id,
        prev_log_index: prev.0,
        prev_log_term: prev.1,
        entries,
        leader_commit,
    }
}

#[test]
fn heartbeat_goes_to_all_others() {
    let mut raft = peer_with_log(1, 2, &[1, 2]);
    raft.become_leader();
    let ev = Event::Timeout(TimeoutEv::Heartbeat);
    assert!(raft.accepts(&ev));
    let (effects, step) = raft.handle_event(ev);
    assert_eq!(step, Step::Rearm(TimeoutEv::Heartbeat));
    match effects.sends {
        Sends::Heartbeats(call) => {
            let ids: Vec<usize> = call.calls.iter().map(|c| c.id).collect();
            assert_eq!(ids, vec![0, 2]);
            assert_eq!(call.calls[0].args, append_by(1, 2, (2, 2), vec![], 0));
            assert_eq!(call.round, AppendRound { term: 2, open: true });
        }
        other => panic!("unexpected {:?}", other),
    }
}

#[test]
fn heartbeat_is_for_leaders() {
    let mut raft = peer_with_log(1, 2, &[1, 2]);
    assert!(!raft.accepts(&Event::Timeout(TimeoutEv::Heartbeat)));
    raft.become_leader();
    assert!(raft.accepts(&Event::Timeout(TimeoutEv::Heartbeat)));
    raft.next_index[0] = 4;
    assert!(!raft.accepts(&Event::Timeout(TimeoutEv::Heartbeat)));
    raft.next_index[0] = 0;
    assert!(!raft.accepts(&Event::Timeout(TimeoutEv::Heartbeat)));
}

#[test]
fn answers_become_events() {
    let call = AppendCall { id: 2, args: append(5, (3, 4), &[5, 5], 0) };
    let mut round = AppendRound::new(5);
    let rep = AppendEntriesReply { term: 5, conflict: None };
    match round.on_response(&call, Some(rep)) {
        Some(ActionEv::UpdatePeer(5, 2, Ok(5))) => {}
        other => panic!("unexpected {:?}", other),
    }
    let rep = AppendEntriesReply { term: 5, conflict: conflict(2, 1) };
    match round.on_response(&call, Some(rep)) {
        Some(ActionEv::UpdatePeer(5, 2, Err(2))) => {}
        other => panic!("unexpected {:?}", other),
    }
    let rep = AppendEntriesReply { term: 6, conflict: conflict(0, 0) };
    match round.on_response(&call, Some(rep)) {
        Some(ActionEv::FoundNewTerm(6)) => {}
        other => panic!("unexpected {:?}", other),
    }
    // A failed request ends the round.
    assert!(round.on_response(&call, None).is_none());
    let rep = AppendEntriesReply { term: 5, conflict: None };
    assert!(round.on_response(&call, Some(rep)).is_none());
    assert!(!round.open);
}

#[test]
fn answers_move_the_indices() {
    let mut raft = peer_with_log(0, 3, &[1, 3, 3]);
    raft.become_leader();
    raft.handle_event(Event::Action(ActionEv::UpdatePeer(3, 1, Err(2))));
    assert_eq!(raft.next_index, vec![4, 2, 4]);
    raft.handle_event(Event::Action(ActionEv::UpdatePeer(3, 1, Err(3))));
    assert_eq!(raft.next_index[1], 2);
    raft.handle_event(Event::Action(ActionEv::UpdatePeer(3, 1, Err(0))));
    assert_eq!(raft.next_index[1], 1);
    raft.handle_event(Event::Action(ActionEv::UpdatePeer(3, 1, Ok(1))));
    assert_eq!((raft.next_index[1], raft.match_index[1]), (2, 1));
    // A late answer does not take anything back.
    raft.handle_event(Event::Action(ActionEv::UpdatePeer(3, 1, Ok(0))));
    assert_eq!((raft.next_index[1], raft.match_index[1]), (2, 1));
    // An answer of another term is ignored.
    raft.handle_event(Event::Action(ActionEv::UpdatePeer(2, 1, Ok(3))));
    assert_eq!((raft.next_index[1], raft.match_index[1]), (2, 1));
}

#[test]
fn answers_outside_of_the_peers_or_the_log_are_not_accepted() {
    let mut raft = peer_with_log(0, 3, &[1, 3, 3]);
    raft.become_leader();
    assert!(raft.accepts(&Event::Action(ActionEv::UpdatePeer(3, 2, Ok(3)))));
    assert!(!raft.accepts(&Event::Action(ActionEv::UpdatePeer(3, 2, Ok(4)))));
    assert!(!raft.accepts(&Event::Action(ActionEv::UpdatePeer(3, 3, Err(1)))));
    assert!(raft.accepts(&Event::Action(ActionEv::UpdatePeer(2, 3, Ok(9)))));
}

#[test]
fn majority_commits_an_entry_of_the_current_term() {
    let mut raft = Raft::new(5, 0, &[]);
    raft.current_term = 3;
    raft.log = log(&[1, 3]);
    raft.become_leader();
    raft.handle_event(Event::Action(ActionEv::UpdatePeer(3, 1, Ok(2))));
    assert_eq!(raft.commit_index, 0);
    let (effects, step) = raft.handle_event(Event::Action(ActionEv::UpdatePeer(3, 2, Ok(2))));
    assert_eq!(raft.commit_index, 2);
    assert_eq!(step, Step::GoOn);
    match effects.apply {
        Some(msg) => {
            assert!(msg.command_valid);
            assert_eq!((msg.command_index, msg.command), (1, vec![1, 1]));
        }
        None => panic!("nothing to apply"),
    }
}

#[test]
fn entry_of_an_earlier_term_is_not_committed_by_counting() {
    let mut raft = peer_with_log(0, 3, &[1, 1]);
    raft.become_leader();
    raft.handle_event(Event::Action(ActionEv::UpdatePeer(3, 1, Ok(2))));
    raft.handle_event(Event::Action(ActionEv::UpdatePeer(3, 2, Ok(2))));
    assert_eq!(raft.commit_index, 0);
    assert!(raft.update_commit(0).is_none());
}

#[test]
fn one_peer_alone_commits_nothing() {
    let mut raft = Raft::new(1, 0, &[]);
    raft.current_term = 1;
    raft.become_leader();
    raft.log = log(&[1]);
    assert!(raft.update_commit(1).is_none());
    assert_eq!(raft.commit_index, 0);
}

/// Sends heartbeats from `leader` to `follower` until the logs agree; returns how often.
fn replicate(leader: &mut Raft, follower: &mut Raft) -> usize {
    for round in 1..20 {
        let call = leader.send_heartbeat();
        let mut answers = call.round;
        for one in call.calls {
            if one.id != follower.me {
                continue;
            }
            let rep = follower.handle_append_entries(one.args.clone());
            if let Some(ev) = answers.on_response(&one, Some(rep)) {
                let before = leader.next_index[one.id];
                let ev = Event::Action(ev);
                assert!(leader.accepts(&ev));
                leader.handle_event(ev);
                if rep.conflict.is_some() {
                    assert!(leader.next_index[one.id] < before);
                }
            }
        }
        if leader.match_index[follower.me] == leader.log.len() {
            return round;
        }
    }
    panic!("no agreement");
}

#[test]
fn logs_come_to_agree() {
    let logs: Vec<Vec<u64>> =
        vec![vec![], vec![1], vec![1, 1, 2, 2, 2, 2], vec![3, 3, 3], vec![1, 1, 4, 5]];
    for terms in logs {
        let mut leader = peer_with_log(0, 6, &[1, 1, 4, 5, 6]);
        leader.become_leader();
        let mut follower = peer_with_log(1, 5, &terms);
        replicate(&mut leader, &mut follower);
        assert_eq!(leader.log, follower.log);
        assert_eq!(leader.commit_index, 5);
        // The next heartbeat tells the follower.
        replicate(&mut leader, &mut follower);
        assert_eq!(follower.commit_index, 5);
    }
}

#[test]
fn stale_leader_learns_of_the_higher_term() {
    let mut leader = peer_with_log(0, 2, &[1]);
    leader.become_leader();
    let mut follower = peer_with_log(1, 7, &[1]);
    let call = leader.send_heartbeat();
    let mut answers = call.round;
    let rep = follower.handle_append_entries(call.calls[0].args.clone());
    let ev = answers.on_response(&call.calls[0], Some(rep));
    assert!(matches!(ev, Some(ActionEv::FoundNewTerm(7))));
    leader.handle_event(Event::Action(ActionEv::FoundNewTerm(7)));
    assert_eq!(leader.role, Role::Follower);
}

#[test]
fn entries_that_break_off_before_committed_ones_are_not_accepted() {
    let mut raft = peer_with_log(0, 2, &[1, 1, 1]);
    raft.commit_index = 3;
    raft.last_applied = 2;
    let ev = Event::Action(ActionEv::AppendEntries(append(2, (1, 1), &[2], 0)));
    assert!(!raft.accepts(&ev));
    raft.last_applied = 1;
    assert!(raft.accepts(&ev));
    raft.last_applied = 2;
    raft.applying = true;
    assert!(raft.accepts(&ev));
    // Entries under a wrong index can commit what is not there.
    let mut raft = peer_with_log(0, 2, &[1]);
    raft.last_applied = 1;
    let mut args = append(2, (1, 1), &[9], 2);
    args.entries[0].index = 1;
    args.entries[0].term = 1;
    assert!(!raft.accepts(&Event::Action(ActionEv::AppendEntries(args))));
}

#[test]
fn leader_keeps_its_log_while_it_leads() {
    let mut raft = peer_with_log(0, 2, &[1, 2]);
    raft.become_leader();
    let args = append(3, (1, 1), &[3], 0);
    raft.handle_event(Event::Action(ActionEv::AppendEntries(args)));
    assert_eq!(raft.log, log(&[1, 3]));
    assert_eq!(raft.role, Role::Follower);
}

#[test]
fn repeated_entries_are_accepted_and_change_nothing() {
    let mut raft = peer_with_log(0, 1, &[1, 1, 1]);
    raft.voted_for = Some(2);
    let first = raft.handle_append_entries(append(2, (1, 1), &[2, 2], 0));
    assert_eq!(first, AppendEntriesReply { term: 1, conflict: None });
    let log_after = raft.log.clone();
    let second = raft.handle_append_entries(append(2, (1, 1), &[2, 2], 0));
    assert_eq!(second, AppendEntriesReply { term: 2, conflict: None });
    assert_eq!(raft.log, log_after);
    assert_eq!((raft.current_term, raft.voted_for), (2, Some(2)));
    assert_eq!(raft.log[2].term, 2);
}

#[test]
fn entries_keep_their_indices() {
    let mut raft = peer_with_log(0, 1, &[1, 1, 1]);
    raft.handle_append_entries(append(2, (2, 1), &[2, 2, 2], 4));
    for (i, e) in raft.log.iter().enumerate() {
        assert_eq!(e.index, i as u64 + 1);
    }
    assert_eq!(raft.commit_index, 2);
    raft.handle_append_entries(append(2, (9, 2), &[2], 9));
    assert_eq!(raft.log.len(), 5);
    assert_eq!(raft.commit_index, 2);
}
