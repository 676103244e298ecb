use raft::{
    ActionEv, Error, Event, EventLoop, KillAction, LoopAction, LoopEvent, Node, ProcResult, Raft,
    Role, StartAction, StartEvent, State, TimeoutEv,
};

#[test]
fn election_timeouts_are_spread_over_their_range() {
    let raft = Raft::new(3, 0, &[]);
    let drawn: Vec<u64> = (0..200).map(|_| raft.election_timeout()).collect();
    assert!(drawn.iter().all(|t| 650 <= *t && *t < 800));
    assert!(drawn.iter().any(|t| *t != drawn[0]));
    assert!(drawn.iter().any(|t| *t > 650));
}

#[test]
fn heartbeat_interval_is_fixed() {
    assert_eq!(Raft::new(3, 0, &[]).heartbeat_timeout(), 300);
}

#[test]
fn events_set_their_timers() {
    let mut raft = Raft::new(3, 0, &[]);
    let (_, res) = raft.serve_proc(Event::Timeout(TimeoutEv::Election));
    match res {
        ProcResult::UpdateTimeout(dur, TimeoutEv::Election) => assert!((650..800).contains(&dur)),
        other => panic!("unexpected {:?}", other),
    }
    let (_, res) = raft.serve_proc(Event::Action(ActionEv::BecomeLeader(1)));
    assert_eq!(res, ProcResult::UpdateTimeout(300, TimeoutEv::Heartbeat));
    let (_, res) = raft.serve_proc(Event::Timeout(TimeoutEv::Heartbeat));
    assert_eq!(res, ProcResult::UpdateTimeout(300, TimeoutEv::Heartbeat));
    let (_, res) = raft.serve_proc(Event::Action(ActionEv::BecomeLeader(9)));
    assert_eq!(res, ProcResult::GoOn);
    let (_, res) = raft.serve_proc(Event::Action(ActionEv::Killed));
    assert_eq!(res, ProcResult::Stop);
}

#[test]
fn loop_starts_with_an_election_timeout() {
    let l = Raft::new(3, 0, &[]).serve();
    assert!(l.running);
    assert_eq!(l.timeout_ev, TimeoutEv::Election);
    assert!((650..800).contains(&l.default_dur));
}

#[test]
fn loop_looks_at_the_queue_and_then_at_the_timer() {
    let mut l = EventLoop::new(700, TimeoutEv::Election);
    assert!(matches!(l.poll(LoopEvent::Woken), LoopAction::PollQueue));
    assert!(matches!(
        l.poll(LoopEvent::Received(ActionEv::FoundNewTerm(4))),
        LoopAction::Handle(Event::Action(ActionEv::FoundNewTerm(4)))
    ));
    assert!(matches!(
        l.poll(LoopEvent::ActionHandled(ProcResult::GoOn)),
        LoopAction::PollQueue
    ));
    assert!(matches!(l.poll(LoopEvent::QueueEmpty), LoopAction::PollTimer));
    assert!(matches!(l.poll(LoopEvent::TimerPending), LoopAction::Sleep));
}

#[test]
fn loop_keeps_the_timer_and_its_event_together() {
    let mut l = EventLoop::new(700, TimeoutEv::Election);
    let res = ProcResult::UpdateTimeout(300, TimeoutEv::Heartbeat);
    assert!(matches!(l.poll(LoopEvent::ActionHandled(res)), LoopAction::ResetTimer(300)));
    assert!(matches!(l.poll(LoopEvent::TimerSet), LoopAction::PollQueue));
    assert!(matches!(
        l.poll(LoopEvent::TimerFired),
        LoopAction::Handle(Event::Timeout(TimeoutEv::Heartbeat))
    ));
    let res = ProcResult::UpdateTimeout(666, TimeoutEv::Election);
    assert!(matches!(l.poll(LoopEvent::TimeoutHandled(res)), LoopAction::ResetTimer(666)));
    assert_eq!(l.timeout_ev, TimeoutEv::Election);
    assert_eq!(l.default_dur, 700);
}

#[test]
fn loop_falls_back_to_its_first_duration() {
    let mut l = EventLoop::new(700, TimeoutEv::Election);
    assert!(matches!(
        l.poll(LoopEvent::TimeoutHandled(ProcResult::GoOn)),
        LoopAction::ResetTimer(700)
    ));
    assert!(matches!(l.poll(LoopEvent::TimerFailed), LoopAction::NewTimer(700)));
}

#[test]
fn loop_ends_for_good() {
    let mut l = EventLoop::new(700, TimeoutEv::Election);
    assert!(matches!(
        l.poll(LoopEvent::ActionHandled(ProcResult::Stop)),
        LoopAction::Finish
    ));
    assert!(matches!(l.poll(LoopEvent::Woken), LoopAction::Finish));
    assert!(matches!(l.poll(LoopEvent::TimerSet), LoopAction::Finish));
    let mut l = EventLoop::new(700, TimeoutEv::Election);
    assert!(matches!(
        l.poll(LoopEvent::TimeoutHandled(ProcResult::Stop)),
        LoopAction::Finish
    ));
    assert!(!l.running);
}

#[test]
fn loop_ends_with_its_queue() {
    let mut l = EventLoop::new(700, TimeoutEv::Election);
    assert!(matches!(l.poll(LoopEvent::QueueClosed), LoopAction::Finish));
}

#[test]
fn timer_suits_the_role_through_a_run() {
    let mut raft = Raft::new(3, 0, &[]);
    let mut l = raft.serve();
    let script = vec![
        LoopEvent::TimerFired,
        LoopEvent::Received(ActionEv::BecomeLeader(1)),
        LoopEvent::TimerFired,
        LoopEvent::Received(ActionEv::FoundNewTerm(5)),
        LoopEvent::TimerFired,
    ];
    for step in script {
        match l.poll(step) {
            LoopAction::Handle(ev) => {
                assert!(raft.accepts(&ev));
                let from_queue = matches!(ev, Event::Action(_));
                let (_, res) = raft.serve_proc(ev);
                l.poll(if from_queue {
                    LoopEvent::ActionHandled(res)
                } else {
                    LoopEvent::TimeoutHandled(res)
                });
            }
            other => panic!("unexpected {:?}", other),
        }
        assert_eq!(l.timeout_ev == TimeoutEv::Heartbeat, raft.role == Role::Leader);
        assert_eq!(raft.is_leader, raft.role == Role::Leader);
    }
}

#[test]
fn node_shows_what_the_peer_made_known() {
    let mut raft = Raft::new(3, 0, &[]);
    let mut node = Node::new(&raft);
    assert_eq!(node.get_state(), State::default());
    raft.become_candidate();
    raft.become_leader();
    assert_eq!((node.term(), node.is_leader()), (0, false));
    node.publish(&raft);
    let state = node.get_state();
    assert_eq!(state, State { term: 1, is_leader: true });
    assert_eq!((state.term(), state.is_leader()), (1, true));
    assert_eq!((node.term(), node.is_leader()), (1, true));
}

fn started(node: &Node, ev: StartEvent) -> Result<(u64, u64), Error> {
    match node.start(ev) {
        StartAction::Return(res) => res,
        other => panic!("unexpected {:?}", other),
    }
}

#[test]
fn start_is_refused_where_no_leader_runs() {
    let follower = Node::new(&Raft::new(3, 0, &[]));
    assert_eq!(started(&follower, StartEvent::Called), Err(Error::NotLeader));
    let leader = Node { term: 4, is_leader: true, running: true };
    assert_eq!(started(&leader, StartEvent::Sent(false)), Err(Error::NotLeader));
    assert_eq!(started(&leader, StartEvent::Answered(None)), Err(Error::NotLeader));
    assert_eq!(
        started(&leader, StartEvent::Answered(Some(Err(Error::NotLeader)))),
        Err(Error::NotLeader)
    );
}

#[test]
fn start_hands_the_encoded_command_over() {
    let leader = Node { term: 4, is_leader: true, running: true };
    assert!(matches!(leader.start(StartEvent::Called), StartAction::Encode));
    match leader.start(StartEvent::Encoded(Some(vec![1, 2]))) {
        StartAction::Send(ActionEv::NewEntry(command)) => assert_eq!(command, vec![1, 2]),
        other => panic!("unexpected {:?}", other),
    }
    assert_eq!(started(&leader, StartEvent::Encoded(None)), Err(Error::Encode));
    assert!(matches!(leader.start(StartEvent::Sent(true)), StartAction::Await));
    assert_eq!(started(&leader, StartEvent::Answered(Some(Ok((3, 4))))), Ok((3, 4)));
}

#[test]
fn node_is_killed_once() {
    let mut node = Node { term: 4, is_leader: true, running: true };
    assert_eq!(node.kill(), KillAction::Stop);
    assert_eq!(node.kill(), KillAction::AlreadyKilled);
    assert_eq!(node.get_state(), State { term: 4, is_leader: true });
}

#[test]
fn received_events_are_handled_in_order_and_before_timeouts() {
    let mut queue = vec![ActionEv::FoundNewTerm(1), ActionEv::FoundNewTerm(2), ActionEv::Killed];
    let mut l = EventLoop::new(700, TimeoutEv::Election);
    let mut handled = Vec::new();
    let mut told = LoopEvent::Woken;
    let mut waits = 0;
    loop {
        told = match l.poll(told) {
            LoopAction::PollQueue => {
                // The queue is empty for a while after the first event.
                if queue.is_empty() || (handled.len() == 1 && waits < 1) {
                    waits += 1;
                    LoopEvent::QueueEmpty
                } else {
                    LoopEvent::Received(queue.remove(0))
                }
            }
            LoopAction::PollTimer => LoopEvent::TimerFired,
            LoopAction::Handle(Event::Action(ev)) => {
                let killed = matches!(ev, ActionEv::Killed);
                handled.push(format!("{:?}", ev));
                let set = ProcResult::UpdateTimeout(300, TimeoutEv::Heartbeat);
                LoopEvent::ActionHandled(if killed { ProcResult::Stop } else { set })
            }
            LoopAction::Handle(Event::Timeout(kind)) => {
                handled.push(format!("{:?}", kind));
                LoopEvent::TimeoutHandled(ProcResult::GoOn)
            }
            LoopAction::ResetTimer(_) | LoopAction::NewTimer(_) => LoopEvent::TimerSet,
            LoopAction::Sleep => LoopEvent::Woken,
            LoopAction::Finish => break,
        };
    }
    assert_eq!(handled, vec!["FoundNewTerm(1)", "Heartbeat", "FoundNewTerm(2)", "Killed"]);
    assert!(matches!(l.poll(LoopEvent::Woken), LoopAction::Finish));
}
