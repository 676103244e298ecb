use raft::event::{apply_outcome, APPLY_RETRY_DELAY};
use raft::{ActionEv, ApplyMsg, Effects, Entry, Error, Event, Raft, Reply, Sends, Step};

fn leader() -> Raft {
    let mut raft = Raft::new(3, 0, &[]);
    raft.become_candidate();
    raft.become_leader();
    raft
}

fn with_commands(n: u8) -> Raft {
    let mut raft = leader();
    for i in 0..n {
        raft.start(vec![i]).unwrap();
    }
    raft
}

fn index_of(apply: Option<ApplyMsg>) -> Option<u64> {
    apply.map(|msg| msg.command_index)
}

fn handle(raft: &mut Raft, ev: ActionEv) -> Effects {
    let ev = Event::Action(ev);
    assert!(raft.accepts(&ev));
    raft.handle_event(ev).0
}

#[test]
fn leader_answers_with_index_and_term() {
    let mut raft = leader();
    assert_eq!(raft.start(vec![7, 8]), Ok((1, 1)));
    let effects = handle(&mut raft, ActionEv::NewEntry(vec![9]));
    assert_eq!(effects.reply, Some(Reply::Start(Ok((2, 1)))));
    assert!(matches!(effects.sends, Sends::Nothing));
    assert_eq!(
        raft.log,
        vec![
            Entry { term: 1, index: 1, command: vec![7, 8] },
            Entry { term: 1, index: 2, command: vec![9] },
        ]
    );
}

#[test]
fn follower_refuses_commands() {
    let mut raft = Raft::new(3, 0, &[]);
    let effects = handle(&mut raft, ActionEv::NewEntry(vec![9]));
    assert_eq!(effects.reply, Some(Reply::Start(Err(Error::NotLeader))));
    assert!(raft.log.is_empty());
}

#[test]
fn nothing_is_handed_over_before_it_is_committed() {
    let mut raft = with_commands(2);
    assert!(raft.apply_entry().is_none());
    assert!(!raft.applying);
}

#[test]
fn commands_are_handed_over_one_by_one() {
    let mut raft = with_commands(3);
    let effects = handle(&mut raft, ActionEv::UpdatePeer(1, 1, Ok(3)));
    let msg = effects.apply.unwrap();
    assert!(msg.command_valid);
    assert_eq!((msg.command_index, msg.command), (1, vec![0]));
    assert!(raft.applying);
    // None follows while it is on its way.
    assert!(raft.apply_entry().is_none());
    let effects = handle(&mut raft, ActionEv::UpdatePeer(1, 2, Ok(3)));
    assert!(effects.apply.is_none());
    assert_eq!(raft.last_applied, 0);
    assert_eq!(index_of(handle(&mut raft, ActionEv::ApplySuccess).apply), Some(2));
    assert_eq!(raft.last_applied, 1);
    assert_eq!(index_of(handle(&mut raft, ActionEv::ApplySuccess).apply), Some(3));
    assert_eq!(index_of(handle(&mut raft, ActionEv::ApplySuccess).apply), None);
    assert_eq!(raft.last_applied, 3);
    assert!(!raft.applying);
}

#[test]
fn refused_message_is_sent_again() {
    let mut raft = with_commands(1);
    assert_eq!(index_of(handle(&mut raft, ActionEv::UpdatePeer(1, 1, Ok(1))).apply), Some(1));
    assert_eq!(index_of(handle(&mut raft, ActionEv::ApplyFailed).apply), Some(1));
    assert!(raft.applying);
    assert_eq!(raft.last_applied, 0);
}

#[test]
fn outcome_of_a_message_is_reported() {
    assert_eq!(APPLY_RETRY_DELAY, 70);
    assert!(matches!(apply_outcome(true), (0, ActionEv::ApplySuccess)));
    assert!(matches!(apply_outcome(false), (70, ActionEv::ApplyFailed)));
}

#[test]
fn missing_entries_are_not_accepted_for_application() {
    let mut raft = with_commands(2);
    raft.commit_index = 5;
    raft.last_applied = 1;
    raft.applying = true;
    assert!(!raft.accepts(&Event::Action(ActionEv::ApplySuccess)));
    assert!(raft.accepts(&Event::Action(ActionEv::ApplyFailed)));
    raft.last_applied = 2;
    assert!(!raft.accepts(&Event::Action(ActionEv::ApplyFailed)));
    raft.commit_index = 2;
    assert!(raft.accepts(&Event::Action(ActionEv::ApplyFailed)));
}

#[test]
fn kill_changes_nothing_but_stops() {
    let mut raft = with_commands(1);
    let (effects, step) = raft.handle_event(Event::Action(ActionEv::Killed));
    assert_eq!(step, Step::Stop);
    assert!(effects.reply.is_none() && effects.apply.is_none());
    assert_eq!(raft.log.len(), 1);
    assert!(raft.is_leader);
}
