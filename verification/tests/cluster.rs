use std::collections::HashMap;

use raft::{
    ActionEv, AppendCall, AppendEntriesReply, AppendRound, Event, Raft, Reply, RequestVoteArgs,
    RequestVoteReply, Role, Sends, Step, TimeoutEv, VoteRound,
};

/// Numbers that look random and are the same in every run.
struct Dice(u64);

impl Dice {
    fn roll(&mut self, n: usize) -> usize {
        self.0 = self.0.wrapping_mul(6364136223846793005).wrapping_add(1442695040888963407);
        ((self.0 >> 33) % n as u64) as usize
    }
}

enum Message {
    Vote { to: usize, args: RequestVoteArgs, round: usize },
    VoteReply { to: usize, reply: Option<RequestVoteReply>, round: usize },
    Append { to: usize, call: usize, round: usize, from: usize },
    AppendReply { to: usize, reply: Option<AppendEntriesReply>, call: usize, round: usize },
    Own { to: usize, ev: ActionEv },
}

struct Cluster {
    dice: Dice,
    crashes: bool,
    peers: Vec<Raft>,
    timers: Vec<TimeoutEv>,
    messages: Vec<Message>,
    votes: Vec<VoteRound>,
    appends: Vec<AppendRound>,
    calls: Vec<AppendCall>,
    leaders: HashMap<u64, usize>,
    applied: Vec<Vec<Vec<u8>>>,
    record: Vec<Vec<u8>>,
    restarts: usize,
    commands: u64,
}

impl Cluster {
    fn new(n: usize, seed: u64, crashes: bool) -> Cluster {
        Cluster {
            dice: Dice(seed),
            crashes,
            peers: (0..n).map(|me| Raft::new(n, me, &[])).collect(),
            timers: vec![TimeoutEv::Election; n],
            messages: Vec::new(),
            votes: Vec::new(),
            appends: Vec::new(),
            calls: Vec::new(),
            leaders: HashMap::new(),
            applied: vec![Vec::new(); n],
            record: Vec::new(),
            restarts: 0,
            commands: 0,
        }
    }

    fn handle(&mut self, p: usize, ev: Event) -> Option<Reply> {
        assert!(self.peers[p].accepts(&ev), "peer {} cannot handle {:?}", p, ev);
        let term = self.peers[p].current_term;
        let (effects, step) = self.peers[p].handle_event(ev);
        assert!(self.peers[p].current_term >= term);
        if let Step::Rearm(timer) = step {
            self.timers[p] = timer;
        }
        assert_eq!(
            self.timers[p] == TimeoutEv::Heartbeat,
            self.peers[p].role == Role::Leader
        );
        if let Some(msg) = effects.apply {
            // Now and then the service does not take the message.
            if self.dice.roll(5) == 0 {
                self.messages.push(Message::Own { to: p, ev: ActionEv::ApplyFailed });
            } else {
                assert_eq!(msg.command_index as usize, self.applied[p].len() + 1);
                if self.applied[p].len() == self.record.len() {
                    self.record.push(msg.command.clone());
                }
                self.applied[p].push(msg.command);
                self.messages.push(Message::Own { to: p, ev: ActionEv::ApplySuccess });
            }
        }
        match effects.sends {
            Sends::Votes(call) => {
                self.votes.push(call.round);
                for to in call.targets {
                    let round = self.votes.len() - 1;
                    self.messages.push(Message::Vote { to, args: call.args, round });
                }
            }
            Sends::Heartbeats(call) => {
                self.appends.push(call.round);
                for one in call.calls {
                    let to = one.id;
                    self.calls.push(one);
                    let (call, round) = (self.calls.len() - 1, self.appends.len() - 1);
                    self.messages.push(Message::Append { to, call, round, from: p });
                }
            }
            Sends::Nothing => {}
        }
        if self.peers[p].role == Role::Leader {
            let leader = *self.leaders.entry(self.peers[p].current_term).or_insert(p);
            assert_eq!(leader, p, "two leaders in term {}", self.peers[p].current_term);
        }
        effects.reply
    }

    fn deliver(&mut self, msg: Message) {
        match msg {
            Message::Vote { to, args, round } => {
                let peer = &self.peers[to];
                let refused = peer.is_newer(args.last_log_term, args.last_log_index);
                if peer.role == Role::Leader && args.term > peer.current_term && refused {
                    return;
                }
                let from = args.candidate_id as usize;
                let reply = self.handle(to, Event::Action(ActionEv::RequestVote(args)));
                if let Some(Reply::Vote(reply)) = reply {
                    let reply = Some(reply);
                    self.messages.push(Message::VoteReply { to: from, reply, round });
                }
            }
            Message::VoteReply { to, reply, round } => {
                if let Some(ev) = self.votes[round].on_response(reply) {
                    self.messages.push(Message::Own { to, ev });
                }
            }
            Message::Append { to, call, round, from } => {
                let args = self.calls[call].args.clone();
                let reply = self.handle(to, Event::Action(ActionEv::AppendEntries(args)));
                if let Some(Reply::Append(reply)) = reply {
                    let reply = Some(reply);
                    self.messages.push(Message::AppendReply { to: from, reply, call, round });
                }
            }
            Message::AppendReply { to, reply, call, round } => {
                if let Some(ev) = self.appends[round].on_response(&self.calls[call], reply) {
                    self.messages.push(Message::Own { to, ev });
                }
            }
            Message::Own { to, ev } => {
                self.handle(to, Event::Action(ev));
            }
        }
    }

    /// The peer loses all but what it has saved, and so does its service.
    fn restart(&mut self, p: usize) {
        let n = self.peers.len();
        let restarted = Raft::new(n, p, &self.peers[p].persist());
        assert_eq!(restarted.current_term, self.peers[p].current_term);
        assert_eq!(restarted.voted_for, self.peers[p].voted_for);
        assert_eq!(restarted.log, self.peers[p].log);
        self.peers[p] = restarted;
        self.timers[p] = TimeoutEv::Election;
        self.applied[p].clear();
        self.restarts += 1;
        self.messages.retain(|msg| match msg {
            Message::VoteReply { to, .. } => *to != p,
            Message::AppendReply { to, .. } => *to != p,
            Message::Own { to, .. } => *to != p,
            _ => true,
        });
    }

    /// One random thing happens.
    fn step(&mut self) {
        let n = self.peers.len();
        let p = self.dice.roll(n);
        let kind = self.dice.roll(100);
        if self.crashes && self.dice.roll(400) == 0 {
            self.restart(p);
        }
        if kind < 1 || (kind < 6 && self.timers[p] == TimeoutEv::Heartbeat) {
            self.handle(p, Event::Timeout(self.timers[p]));
        } else if kind < 8 && self.peers[p].is_leader {
            self.commands += 1;
            let command = self.commands.to_be_bytes().to_vec();
            let reply = self.handle(p, Event::Action(ActionEv::NewEntry(command)));
            assert!(matches!(reply, Some(Reply::Start(Ok(_)))));
        } else if !self.messages.is_empty() {
            let i = self.dice.roll(self.messages.len());
            let fate = self.dice.roll(20);
            let own = matches!(self.messages[i], Message::Own { .. });
            let msg = self.messages.swap_remove(i);
            match msg {
                // Requests are lost, with or without notice, or come twice.
                Message::Vote { .. } if fate == 0 => {}
                Message::Append { .. } if fate == 0 => {}
                Message::Append { to, call, round, from } if fate == 1 => {
                    let reply = None;
                    self.messages.push(Message::AppendReply { to: from, reply, call, round });
                    self.messages.push(Message::Append { to, call, round, from });
                }
                msg => self.deliver(msg),
            }
            assert!(own || self.messages.len() < 100000);
        }
        self.compare();
    }

    /// Logs match, and what is committed agrees.
    fn compare(&self) {
        for a in &self.peers {
            assert!(a.commit_index <= a.log.len());
            for (i, e) in a.log.iter().enumerate() {
                assert_eq!(e.index as usize, i + 1);
            }
            for b in &self.peers {
                let both = a.log.len().min(b.log.len());
                for i in (0..both).rev() {
                    if a.log[i].term == b.log[i].term {
                        assert!(a.log[..=i] == b.log[..=i]);
                        break;
                    }
                }
                let both = a.commit_index.min(b.commit_index);
                assert!(a.log[..both] == b.log[..both]);
            }
        }
        for a in &self.applied {
            for b in &self.applied {
                let both = a.len().min(b.len());
                assert!(a[..both] == b[..both]);
            }
            assert!(a[..] == self.record[..a.len()]);
        }
    }
}

#[test]
fn three_peers_agree() {
    let mut applied = 0;
    for seed in 0..8 {
        let mut cluster = Cluster::new(3, seed, false);
        for _ in 0..3000 {
            cluster.step();
        }
        applied += cluster.applied.iter().map(|a| a.len()).max().unwrap();
    }
    assert!(applied > 20, "only {} commands were applied", applied);
}

#[test]
fn five_peers_agree() {
    let mut applied = 0;
    for seed in 100..106 {
        let mut cluster = Cluster::new(5, seed, false);
        for _ in 0..4000 {
            cluster.step();
        }
        applied += cluster.applied.iter().map(|a| a.len()).max().unwrap();
    }
    assert!(applied > 5, "only {} commands were applied", applied);
}

#[test]
fn peers_agree_through_crashes() {
    let mut applied = 0;
    let mut restarts = 0;
    for seed in 200..208 {
        let mut cluster = Cluster::new(3, seed, true);
        for _ in 0..4000 {
            cluster.step();
        }
        applied += cluster.record.len();
        restarts += cluster.restarts;
    }
    assert!(applied > 5, "only {} commands were applied", applied);
    assert!(restarts > 20, "only {} restarts", restarts);
}

#[test]
fn leader_that_refuses_a_higher_term_goes_on_to_lead_in_it() {
    let mut raft = Raft::new(3, 0, &[]);
    raft.become_candidate();
    raft.become_leader();
    raft.start(vec![1]).unwrap();
    let args = RequestVoteArgs { term: 5, candidate_id: 1, last_log_index: 0, last_log_term: 0 };
    let (effects, step) = raft.handle_event(Event::Action(ActionEv::RequestVote(args)));
    assert_eq!(
        effects.reply,
        Some(Reply::Vote(RequestVoteReply { term: 1, vote_granted: false }))
    );
    assert_eq!(step, Step::GoOn);
    assert_eq!(raft.role, Role::Leader);
    assert_eq!(raft.current_term, 5);
    assert_eq!(raft.start(vec![2]), Ok((2, 5)));
}
