//! The state of a peer as a mathematical value, and what each event does to it.
use vstd::prelude::*;

use crate::event::{ActionEv, EffectsView, Event, Reply, SendsView, Step, TimeoutEv};
use crate::node::Error;
use crate::peer::{ApplyMsgView, Role};
use crate::rounds::{AppendCallView, AppendRound, HeartbeatCallView, VoteCallView, VoteRound};
use crate::saved::SavedView;
use crate::service::{
    AppendEntriesArgsView, AppendEntriesReply, EntryConflict, EntryView, RequestVoteArgs,
    RequestVoteReply,
};

verus! {

/// The state of a peer.
#[verifier::ext_equal]
pub struct RaftView {
    pub me: usize,
    pub peers: usize,
    pub role: Role,
    pub is_leader: bool,
    pub term: u64,
    pub voted_for: Option<usize>,
    pub log: Seq<EntryView>,
    pub commit_index: usize,
    pub last_applied: usize,
    pub applying: bool,
    pub next_index: Seq<usize>,
    pub match_index: Seq<usize>,
}

impl RaftView {
    /// What every operation keeps: one index of each kind for each peer, and a log whose length
    /// leaves room for the index of a next entry.
    pub open spec fn valid(self) -> bool {
        &&& self.next_index.len() == self.peers
        &&& self.match_index.len() == self.peers
        &&& self.log.len() < usize::MAX
    }

    /// The state of a peer that has just been created.
    pub open spec fn initial(peers: usize, me: usize) -> RaftView {
        RaftView {
            me,
            peers,
            role: Role::Follower,
            is_leader: false,
            term: 0,
            voted_for: None,
            log: Seq::empty(),
            commit_index: 0,
            last_applied: 0,
            applying: false,
            next_index: Seq::new(peers as nat, |i: int| 0usize),
            match_index: Seq::new(peers as nat, |i: int| 0usize),
        }
    }

    // ---- crashes ----
    /// What of the state survives a crash.
    pub open spec fn saved(self) -> SavedView {
        SavedView { term: self.term, voted_for: self.voted_for, log: self.log }
    }

    /// The state with what was saved taken over.
    pub open spec fn restored(self, s: SavedView) -> RaftView {
        RaftView { term: s.term, voted_for: s.voted_for, log: s.log, ..self }
    }

    /// The state with what `data` say taken over, if they are what is written down of a state.
    pub open spec fn recovered(self, data: Seq<u8>) -> RaftView {
        if exists|s: SavedView| #[trigger] crate::saved::encoding(s) == data {
            self.restored(choose|s: SavedView| #[trigger] crate::saved::encoding(s) == data)
        } else {
            self
        }
    }

    /// The state of the peer after a crash: that of a new peer, with what was saved.
    pub open spec fn restarted(self) -> RaftView {
        Self::initial(self.peers, self.me).restored(self.saved())
    }

    // ---- votes ----
    /// The term of the last entry, or 0.
    pub open spec fn last_log_term(self) -> u64 {
        if self.log.len() == 0 {
            0
        } else {
            self.log.last().term
        }
    }

    /// The index of the last entry, or 0.
    pub open spec fn last_entry_index(self) -> u64 {
        if self.log.len() == 0 {
            0
        } else {
            self.log.last().index
        }
    }

    /// Whether this log is more up-to-date than one that ends with `term` and `index`.
    pub open spec fn is_newer(self, term: u64, index: u64) -> bool {
        ||| self.last_log_term() > term
        ||| self.last_log_term() == term && self.last_entry_index() > index
    }

    /// Whether the candidate gets the vote: its term is not behind, its log is not behind, and,
    /// within the current term, no other candidate has the vote.
    pub open spec fn grants(self, args: RequestVoteArgs) -> bool {
        &&& args.term >= self.term
        &&& !self.is_newer(args.last_log_term, args.last_log_index)
        &&& args.term > self.term || self.voted_for is None || self.voted_for == Some(
            args.candidate_id as usize,
        )
    }

    pub open spec fn vote_reply(self, args: RequestVoteArgs) -> RequestVoteReply {
        RequestVoteReply { term: self.term, vote_granted: self.grants(args) }
    }

    pub open spec fn after_request_vote(self, args: RequestVoteArgs) -> RaftView {
        RaftView {
            term: if args.term > self.term {
                args.term
            } else {
                self.term
            },
            voted_for: if self.grants(args) {
                Some(args.candidate_id as usize)
            } else {
                self.voted_for
            },
            ..self
        }
    }

    /// The peers other than this one, in ascending order.
    pub open spec fn others(me: usize, peers: int) -> Seq<usize> {
        Seq::new(
            (if me < peers {
                peers - 1
            } else {
                peers
            }) as nat,
            |i: int|
                if i < me {
                    i as usize
                } else {
                    (i + 1) as usize
                },
        )
    }

    pub open spec fn vote_args(self) -> RequestVoteArgs {
        RequestVoteArgs {
            term: self.term,
            candidate_id: self.me as u64,
            last_log_index: self.log.len() as u64,
            last_log_term: self.last_log_term(),
        }
    }

    pub open spec fn vote_call(self) -> VoteCallView {
        VoteCallView {
            args: self.vote_args(),
            targets: Self::others(self.me, self.peers as int),
            round: VoteRound { term: self.term, votes: 1, total: self.peers, open: true },
        }
    }

    // ---- replication ----
    /// The position of the first entry from `i` on and before `n` whose term is not `term`,
    /// or `n`.
    pub open spec fn run_end(log: Seq<EntryView>, term: u64, i: int, n: int) -> int
        decreases n - i,
    {
        if i >= n || log[i].term != term {
            i
        } else {
            Self::run_end(log, term, i + 1, n)
        }
    }

    /// What stands against an entry of term `pre_term` at index `pre_index`. Index 0 stands for
    /// the empty log, whose term is 0. Beyond the end of the log, the next index of the log is
    /// named. At an entry of another term, that term is named, with the index after the first
    /// entry before it that has yet another term, or with 1.
    pub open spec fn conflict(self, pre_index: usize, pre_term: u64) -> Option<EntryConflict> {
        if pre_index == 0 {
            if pre_term != 0 {
                Some(EntryConflict { log_index: 0, log_term: 0 })
            } else {
                None
            }
        } else if pre_index > self.log.len() {
            Some(EntryConflict { log_index: (self.log.len() + 1) as u64, log_term: 0 })
        } else if self.log[pre_index - 1].term != pre_term {
            let term = self.log[pre_index - 1].term;
            let end = Self::run_end(self.log, term, 0, pre_index - 1);
            Some(
                EntryConflict {
                    log_index: if end == pre_index - 1 {
                        1
                    } else {
                        (end + 2) as u64
                    },
                    log_term: term,
                },
            )
        } else {
            None
        }
    }

    /// Why the entries are refused: their leader's term is behind, or the log does not hold what
    /// precedes them.
    pub open spec fn append_conflict(self, args: AppendEntriesArgsView) -> Option<EntryConflict> {
        if args.term < self.term {
            Some(EntryConflict { log_index: 0, log_term: 0 })
        } else {
            self.conflict(args.prev_log_index as usize, args.prev_log_term)
        }
    }

    pub open spec fn append_reply(self, args: AppendEntriesArgsView) -> AppendEntriesReply {
        AppendEntriesReply { term: self.term, conflict: self.append_conflict(args) }
    }

    /// Whether accepted entries change the log: the log does not hold the last of them yet.
    pub open spec fn replaces(self, args: AppendEntriesArgsView) -> bool {
        &&& args.entries.len() > 0
        &&& self.conflict(args.entries.last().index as usize, args.entries.last().term) is Some
    }

    /// The index up to which an accepted request lets entries be committed. Entries that have
    /// just been written do not count.
    pub open spec fn commit_limit(self, args: AppendEntriesArgsView) -> int {
        args.prev_log_index as usize + if self.replaces(args) {
            0
        } else {
            args.entries.len()
        }
    }

    pub open spec fn after_append(self, args: AppendEntriesArgsView) -> RaftView {
        if self.append_conflict(args) is Some {
            self
        } else {
            RaftView {
                term: args.term,
                log: if self.replaces(args) {
                    self.log.take(args.prev_log_index as usize as int) + args.entries
                } else {
                    self.log
                },
                commit_index: if args.leader_commit > self.commit_index {
                    if (args.leader_commit as usize) < self.commit_limit(args) {
                        args.leader_commit as usize
                    } else {
                        self.commit_limit(args) as usize
                    }
                } else {
                    self.commit_index
                },
                ..self
            }
        }
    }

    /// Whether a replication request can be made for the peer: its next index lies within the
    /// log or just behind it.
    pub open spec fn heartbeat_ready(self, id: int) -> bool {
        &&& 1 <= self.next_index[id] <= self.log.len() + 1
        &&& self.match_index[id] < usize::MAX
    }

    /// The replication request for the peer. It carries entries only once the peer is known to
    /// hold all that precedes them.
    pub open spec fn append_args(self, id: int) -> AppendEntriesArgsView {
        let pre_index = self.next_index[id] - 1;
        AppendEntriesArgsView {
            term: self.term,
            leader_id: self.me as u64,
            prev_log_index: pre_index as u64,
            prev_log_term: if pre_index > 0 {
                self.log[pre_index - 1].term
            } else {
                0
            },
            entries: if self.next_index[id] > self.match_index[id] + 1 {
                Seq::empty()
            } else {
                self.log.skip(pre_index)
            },
            leader_commit: self.commit_index as u64,
        }
    }

    pub open spec fn append_calls(self, peers: int) -> Seq<AppendCallView> {
        Seq::new(
            Self::others(self.me, peers).len(),
            |i: int|
                {
                    let id = Self::others(self.me, peers)[i];
                    AppendCallView { id, args: self.append_args(id as int) }
                },
        )
    }

    pub open spec fn heartbeat_call(self) -> HeartbeatCallView {
        HeartbeatCallView {
            calls: self.append_calls(self.peers as int),
            round: AppendRound { term: self.term, open: true },
        }
    }

    // ---- roles ----
    pub open spec fn leading(self) -> RaftView {
        RaftView {
            role: Role::Leader,
            is_leader: true,
            next_index: Seq::new(self.peers as nat, |i: int| (self.log.len() + 1) as usize),
            match_index: Seq::new(self.peers as nat, |i: int| 0usize),
            ..self
        }
    }

    pub open spec fn campaigning(self) -> RaftView {
        RaftView {
            role: Role::Candidate,
            voted_for: Some(self.me),
            term: (self.term + 1) as u64,
            ..self
        }
    }

    pub open spec fn following(self) -> RaftView {
        RaftView { role: Role::Follower, is_leader: false, ..self }
    }

    // ---- commitment ----
    /// How many of the first `n` peers, this one aside, are known to hold the entry at `idx`.
    pub open spec fn acks(self, idx: usize, n: int) -> nat
        decreases n,
    {
        if n <= 0 {
            0
        } else {
            self.acks(idx, n - 1) + if n - 1 != self.me && self.match_index[n - 1] >= idx {
                1nat
            } else {
                0nat
            }
        }
    }

    /// The more peers are asked, the more hold the entry.
    pub proof fn lemma_acks_grow(self, idx: usize, m: int, n: int)
        requires
            m <= n,
        ensures
            self.acks(idx, m) <= self.acks(idx, n),
            self.acks(idx, n) <= self.acks(idx, m) + n - m,
        decreases n - m,
    {
        if m < n {
            self.lemma_acks_grow(idx, m, n - 1);
        }
    }

    /// Whether the entry at `idx` becomes committed: it is of the current term, and it stands in
    /// the logs of a majority, in this one and in that of at least one other peer.
    pub open spec fn commits(self, idx: usize) -> bool {
        let acks = self.acks(idx, self.peers as int);
        &&& idx > self.commit_index
        &&& self.log[idx - 1].term == self.term
        &&& acks > 0
        &&& VoteRound::majority((1 + acks) as int, self.peers as int)
    }

    /// The state with the entries up to `idx` committed, if they can be.
    pub open spec fn committed(self, idx: usize) -> RaftView {
        if self.commits(idx) {
            RaftView { commit_index: idx, ..self }
        } else {
            self
        }
    }

    /// The match index of the peer after it has accepted entries up to `idx`.
    pub open spec fn raised_match(self, id: int, idx: usize) -> usize {
        if self.match_index[id] > idx {
            self.match_index[id]
        } else {
            idx
        }
    }

    /// The state after the peer has accepted entries up to `idx`.
    pub open spec fn with_match(self, id: int, idx: usize) -> RaftView {
        RaftView {
            match_index: self.match_index.update(id, self.raised_match(id, idx)),
            next_index: self.next_index.update(id, (self.raised_match(id, idx) + 1) as usize),
            ..self
        }
    }

    /// The next index of the peer after it has named `idx`: never a later one, and at least 1.
    pub open spec fn lowered_next(self, id: int, idx: usize) -> usize {
        let low = if self.next_index[id] < idx {
            self.next_index[id]
        } else {
            idx
        };
        if low < 1 {
            1
        } else {
            low
        }
    }

    // ---- application ----
    /// Whether a committed entry waits to be handed to the service and none is on its way.
    pub open spec fn apply_pending(self) -> bool {
        self.commit_index > self.last_applied && !self.applying
    }

    /// Whether the entry that waits, if any, stands in the log.
    pub open spec fn apply_ready(self) -> bool {
        self.apply_pending() ==> self.last_applied < self.log.len()
    }

    pub open spec fn apply_msg(self) -> Option<ApplyMsgView> {
        if self.apply_pending() {
            Some(
                ApplyMsgView {
                    command_valid: true,
                    command: self.log[self.last_applied as int].command,
                    command_index: (self.last_applied + 1) as u64,
                },
            )
        } else {
            None
        }
    }

    pub open spec fn after_apply(self) -> RaftView {
        RaftView { applying: self.applying || self.apply_pending(), ..self }
    }

    /// The state once the service has taken the message on its way.
    pub open spec fn applied(self) -> RaftView {
        RaftView { last_applied: (self.last_applied + 1) as usize, applying: false, ..self }
    }

    // ---- commands ----
    pub open spec fn start_reply(self) -> Result<(u64, u64), Error> {
        if self.is_leader {
            Ok(((self.log.len() + 1) as u64, self.term))
        } else {
            Err(Error::NotLeader)
        }
    }

    pub open spec fn after_start(self, command: Seq<u8>) -> RaftView {
        if self.is_leader {
            RaftView {
                log: self.log.push(
                    EntryView { term: self.term, index: (self.log.len() + 1) as u64, command },
                ),
                ..self
            }
        } else {
            self
        }
    }

    // ---- events ----
    /// Whether the event can be handled in this state. Excluded are: an index that is not in the
    /// log where its entry is needed, a peer that does not exist, a heartbeat of a peer that is
    /// not the leader, and numbers that do not fit.
    pub open spec fn ready_for(self, ev: Event) -> bool {
        match ev {
            Event::Action(ActionEv::AppendEntries(args)) => {
                &&& self.after_append(args@).log.len() < usize::MAX
                &&& args.term >= self.term ==> self.after_append(args@).apply_ready()
            },
            Event::Action(ActionEv::UpdatePeer(term, id, res)) => term == self.term ==> {
                &&& id < self.peers
                &&& match res {
                    Ok(idx) => {
                        let idx = self.raised_match(id as int, idx);
                        idx < usize::MAX && (idx > self.commit_index ==> idx <= self.log.len())
                    },
                    Err(_) => true,
                }
            },
            Event::Action(ActionEv::NewEntry(_)) => self.is_leader ==> self.log.len() + 1
                < usize::MAX,
            Event::Action(ActionEv::ApplySuccess) => self.last_applied < usize::MAX
                && self.applied().apply_ready(),
            Event::Action(ActionEv::ApplyFailed) => (RaftView {
                applying: false,
                ..self
            }).apply_ready(),
            Event::Timeout(TimeoutEv::Election) => self.term < u64::MAX,
            Event::Timeout(TimeoutEv::Heartbeat) => {
                &&& self.role is Leader
                &&& forall|id: int|
                    0 <= id < self.peers && id != self.me ==> #[trigger] self.heartbeat_ready(id)
            },
            _ => true,
        }
    }

    /// The state after the event.
    pub open spec fn next(self, ev: Event) -> RaftView {
        match ev {
            Event::Action(ActionEv::RequestVote(args)) => if self.grants(args) {
                self.after_request_vote(args).following()
            } else {
                self.after_request_vote(args)
            },
            Event::Action(ActionEv::AppendEntries(args)) => if args.term >= self.term {
                self.after_append(args@).after_apply().following()
            } else {
                self
            },
            Event::Action(ActionEv::FoundNewTerm(term)) => if term > self.term {
                self.following()
            } else {
                self
            },
            Event::Action(ActionEv::BecomeLeader(term)) => if term == self.term {
                self.leading()
            } else {
                self
            },
            Event::Action(ActionEv::UpdatePeer(term, id, res)) => if term == self.term {
                match res {
                    Ok(idx) => self.after_match(id as int, idx),
                    Err(idx) => RaftView {
                        next_index: self.next_index.update(
                            id as int,
                            self.lowered_next(id as int, idx),
                        ),
                        ..self
                    },
                }
            } else {
                self
            },
            Event::Action(ActionEv::NewEntry(command)) => self.after_start(command@),
            Event::Action(ActionEv::ApplySuccess) => self.applied().after_apply(),
            Event::Action(ActionEv::ApplyFailed) => (RaftView {
                applying: false,
                ..self
            }).after_apply(),
            Event::Action(ActionEv::Killed) => self,
            Event::Timeout(TimeoutEv::Election) => self.campaigning(),
            Event::Timeout(TimeoutEv::Heartbeat) => self,
        }
    }

    /// The state after the peer has accepted entries up to `idx`, with what that commits.
    pub open spec fn after_match(self, id: int, idx: usize) -> RaftView {
        let s = self.with_match(id, idx);
        if s.commits(self.raised_match(id, idx)) {
            s.committed(self.raised_match(id, idx)).after_apply()
        } else {
            s
        }
    }

    /// The message for the service that goes with [`RaftView::after_match`].
    pub open spec fn match_msg(self, id: int, idx: usize) -> Option<ApplyMsgView> {
        let s = self.with_match(id, idx);
        if s.commits(self.raised_match(id, idx)) {
            s.committed(self.raised_match(id, idx)).apply_msg()
        } else {
            None
        }
    }

    /// What the event asks the surroundings to do.
    pub open spec fn effects(self, ev: Event) -> EffectsView {
        match ev {
            Event::Action(ActionEv::RequestVote(args)) => EffectsView {
                reply: Some(Reply::Vote(self.vote_reply(args))),
                ..EffectsView::none()
            },
            Event::Action(ActionEv::AppendEntries(args)) => EffectsView {
                reply: Some(Reply::Append(self.append_reply(args@))),
                apply: if args.term >= self.term {
                    self.after_append(args@).apply_msg()
                } else {
                    None
                },
                ..EffectsView::none()
            },
            Event::Action(ActionEv::UpdatePeer(term, id, Ok(idx))) if term == self.term =>
                EffectsView { apply: self.match_msg(id as int, idx), ..EffectsView::none() },
            Event::Action(ActionEv::NewEntry(_)) => EffectsView {
                reply: Some(Reply::Start(self.start_reply())),
                ..EffectsView::none()
            },
            Event::Action(ActionEv::ApplySuccess) => EffectsView {
                apply: self.applied().apply_msg(),
                ..EffectsView::none()
            },
            Event::Action(ActionEv::ApplyFailed) => EffectsView {
                apply: (RaftView { applying: false, ..self }).apply_msg(),
                ..EffectsView::none()
            },
            Event::Timeout(TimeoutEv::Election) => EffectsView {
                sends: SendsView::Votes(self.campaigning().vote_call()),
                ..EffectsView::none()
            },
            Event::Timeout(TimeoutEv::Heartbeat) => EffectsView {
                sends: SendsView::Heartbeats(self.heartbeat_call()),
                ..EffectsView::none()
            },
            _ => EffectsView::none(),
        }
    }

    /// What the event means for the event loop.
    pub open spec fn step(self, ev: Event) -> Step {
        match ev {
            Event::Action(ActionEv::RequestVote(args)) if self.grants(args) => Step::Rearm(
                TimeoutEv::Election,
            ),
            Event::Action(ActionEv::AppendEntries(args)) if args.term >= self.term => Step::Rearm(
                TimeoutEv::Election,
            ),
            Event::Action(ActionEv::FoundNewTerm(term)) if term > self.term => Step::Rearm(
                TimeoutEv::Election,
            ),
            Event::Action(ActionEv::BecomeLeader(term)) if term == self.term => Step::Rearm(
                TimeoutEv::Heartbeat,
            ),
            Event::Action(ActionEv::Killed) => Step::Stop,
            Event::Timeout(timer) => Step::Rearm(timer),
            _ => Step::GoOn,
        }
    }
}

} // verus!
