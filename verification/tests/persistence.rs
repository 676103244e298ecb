use raft::saved::{decode, encode};
use raft::{Entry, Raft, RequestVoteArgs, Role, TimeoutEv};

fn entry(term: u64, index: u64, command: Vec<u8>) -> Entry {
    Entry { term, index, command }
}

fn number(x: u64) -> Vec<u8> {
    x.to_le_bytes().to_vec()
}

fn saved_peer() -> Raft {
    let mut raft = Raft::new(3, 1, &[]);
    raft.current_term = 7;
    raft.voted_for = Some(2);
    raft.log = vec![entry(3, 1, vec![10, 20]), entry(7, 2, vec![])];
    raft
}

#[test]
fn state_is_written_down_byte_by_byte() {
    let raft = saved_peer();
    let mut expected = number(7);
    expected.push(1);
    expected.extend(number(2));
    expected.extend(number(3));
    expected.extend(number(1));
    expected.extend(vec![2, 10, 20]);
    expected.extend(number(7));
    expected.extend(number(2));
    expected.push(0);
    assert_eq!(raft.persist(), expected);
}

#[test]
fn new_peer_is_written_down_in_nine_bytes() {
    let raft = Raft::new(3, 0, &[]);
    assert_eq!(raft.persist(), vec![0; 9]);
}

#[test]
fn saved_state_comes_back() {
    let mut old = saved_peer();
    old.become_leader();
    old.commit_index = 2;
    old.last_applied = 1;
    let raft = Raft::new(3, 1, &old.persist());
    assert_eq!(raft.current_term, 7);
    assert_eq!(raft.voted_for, Some(2));
    assert_eq!(raft.log, old.log);
    // The rest is new.
    assert_eq!(raft.role, Role::Follower);
    assert!(!raft.is_leader);
    assert_eq!((raft.commit_index, raft.last_applied, raft.applying), (0, 0, false));
    assert_eq!(raft.next_index, vec![0, 0, 0]);
    assert_eq!(raft.persist(), old.persist());
}

#[test]
fn restore_takes_over_what_is_saved_and_keeps_the_rest() {
    let mut raft = Raft::new(3, 0, &[]);
    raft.commit_index = 1;
    raft.restore(&saved_peer().persist());
    assert_eq!((raft.current_term, raft.voted_for), (7, Some(2)));
    assert_eq!(raft.log.len(), 2);
    assert_eq!(raft.commit_index, 1);
    let before = raft.persist();
    raft.restore(&[]);
    assert_eq!(raft.persist(), before);
}

#[test]
fn bytes_that_are_no_saved_state_are_not_taken_over() {
    let good = saved_peer().persist();
    let bad: Vec<Vec<u8>> = vec![
        vec![1, 2, 3],
        good[..8].to_vec(),
        good[..12].to_vec(),
        good[..good.len() - 1].to_vec(),
        [&good[..], &[9][..]].concat(),
        [&number(1)[..], &[2][..]].concat(),
    ];
    for data in bad {
        assert!(decode(&data).is_none(), "{:?}", data);
        let mut raft = saved_peer();
        raft.restore(&data);
        assert_eq!(raft.persist(), good);
        assert_eq!(Raft::new(3, 0, &data).persist(), vec![0; 9]);
    }
}

#[test]
fn commands_of_all_lengths_come_back() {
    for len in vec![0, 1, 254, 255, 256, 509, 510, 511, 1000] {
        let command: Vec<u8> = (0..len).map(|i| (i % 251) as u8).collect();
        let log = vec![entry(1, 1, command.clone()), entry(2, 2, vec![255; 3])];
        let data = encode(9, None, &log);
        assert_eq!(data.len(), 9 + 16 + len + len / 255 + 1 + 16 + 4);
        let saved = decode(&data).unwrap();
        assert_eq!((saved.term, saved.voted_for), (9, None));
        assert_eq!(saved.log, log);
    }
}

#[test]
fn different_states_are_written_down_differently() {
    let log = vec![entry(1, 1, vec![])];
    let all = vec![
        encode(1, None, &vec![]),
        encode(2, None, &vec![]),
        encode(1, Some(0), &vec![]),
        encode(1, Some(1), &vec![]),
        encode(1, None, &log),
        encode(1, None, &vec![entry(1, 1, vec![0])]),
    ];
    for i in 0..all.len() {
        for j in 0..i {
            assert_ne!(all[i], all[j]);
        }
    }
}

#[test]
fn vote_survives_a_crash() {
    let mut raft = Raft::new(3, 0, &[]);
    let ask = |candidate_id| RequestVoteArgs {
        term: 4,
        candidate_id,
        last_log_index: 0,
        last_log_term: 0,
    };
    assert!(raft.handle_request_vote(ask(1)).vote_granted);
    let mut raft = Raft::new(3, 0, &raft.persist());
    assert!(!raft.handle_request_vote(ask(2)).vote_granted);
    assert!(raft.handle_request_vote(ask(1)).vote_granted);
}

#[test]
fn restarted_leader_follows_and_waits_for_an_election() {
    let mut old = saved_peer();
    old.become_leader();
    let raft = Raft::new(3, 1, &old.persist());
    assert_eq!(raft.role, Role::Follower);
    let l = raft.serve();
    assert_eq!(l.timeout_ev, TimeoutEv::Election);
    assert!(l.running);
}
