//! A single Raft peer.
use vstd::prelude::*;

use crate::event::{ActionEv, Effects, Event, ProcResult, Reply, Sends, Step, TimeoutEv};
use crate::event_loop::EventLoop;
use crate::model::RaftView;
use crate::node::Error;
use crate::rounds::{AppendCall, AppendRound, HeartbeatCall, VoteCall, VoteRound};
use crate::saved::{decode, encode, SavedView};
use crate::service::{
    copy_from, AppendEntriesArgs, AppendEntriesReply, Entry, EntryConflict, RequestVoteArgs,
    RequestVoteReply,
};
use crate::timing::{draw, ELECTION_TIMEOUT_END, ELECTION_TIMEOUT_START, HEARTBEAT_TIMEOUT};

verus! {

/// A committed command, for the service.
#[derive(Debug)]
pub struct ApplyMsg {
    pub command_valid: bool,
    pub command: Vec<u8>,
    pub command_index: u64,
}

/// An [`ApplyMsg`] as a mathematical value.
#[verifier::ext_equal]
pub struct ApplyMsgView {
    pub command_valid: bool,
    pub command: Seq<u8>,
    pub command_index: u64,
}

impl View for ApplyMsg {
    type V = ApplyMsgView;

    open spec fn view(&self) -> ApplyMsgView {
        ApplyMsgView {
            command_valid: self.command_valid,
            command: self.command@,
            command_index: self.command_index,
        }
    }
}

/// A message, if there is one, as a mathematical value.
pub open spec fn apply_view(msg: Option<ApplyMsg>) -> Option<ApplyMsgView> {
    match msg {
        Some(msg) => Some(msg@),
        None => None,
    }
}

/// What a peer takes itself for.
#[derive(Clone, Copy, Debug, PartialEq, Eq, Structural)]
pub enum Role {
    Leader,
    Candidate,
    Follower,
}

/// The state of a peer.
#[derive(Debug)]
pub struct Raft {
    /// This peer's place among the peers.
    pub me: usize,
    /// The number of peers.
    pub peers: usize,
    pub role: Role,
    pub is_leader: bool,
    pub current_term: u64,
    pub voted_for: Option<usize>,
    pub log: Vec<Entry>,
    /// The index of the last entry that is known to be committed.
    pub commit_index: usize,
    /// The index of the last entry that the service has taken.
    pub last_applied: usize,
    /// Whether an entry is on its way to the service.
    pub applying: bool,
    /// For each peer, the index of the next entry to send to it.
    pub next_index: Vec<usize>,
    /// For each peer, the index up to which its log is known to agree.
    pub match_index: Vec<usize>,
}

impl View for Raft {
    type V = RaftView;

    open spec fn view(&self) -> RaftView {
        RaftView {
            me: self.me,
            peers: self.peers,
            role: self.role,
            is_leader: self.is_leader,
            term: self.current_term,
            voted_for: self.voted_for,
            log: crate::service::entries_view(self.log@),
            commit_index: self.commit_index,
            last_applied: self.last_applied,
            applying: self.applying,
            next_index: self.next_index@,
            match_index: self.match_index@,
        }
    }
}

impl Raft {
    /// Creates the peer `me` out of `peers`. `raft_state` is what was saved before a crash, if
    /// anything was.
    pub fn new(peers: usize, me: usize, raft_state: &[u8]) -> (res: Raft)
        ensures
            res@ == RaftView::initial(peers, me).recovered(raft_state@),
            forall|s: SavedView| #[trigger]
                crate::saved::encoding(s) == raft_state@ ==> res@ == RaftView::initial(
                    peers,
                    me,
                ).restored(s),
            raft_state@.len() == 0 ==> res@ == RaftView::initial(peers, me),
            (forall|s: SavedView| #[trigger] crate::saved::encoding(s) != raft_state@) ==> res@
                == RaftView::initial(peers, me),
            res@.valid(),
    {
        let mut next_index: Vec<usize> = Vec::new();
        next_index.resize(peers, 0);
        let match_index = next_index.clone();
        let mut rf = Raft {
            me,
            peers,
            role: Role::Follower,
            is_leader: false,
            current_term: 0,
            voted_for: None,
            log: Vec::new(),
            commit_index: 0,
            last_applied: 0,
            applying: false,
            next_index,
            match_index,
        };
        assert(rf@ =~= RaftView::initial(peers, me));
        rf.restore(raft_state);
        rf
    }

    /// What has to be in stable storage before anything that this peer does becomes known: its
    /// term, its vote and its log, written down.
    pub fn persist(&self) -> (data: Vec<u8>)
        ensures
            data@ == crate::saved::encoding(self@.saved()),
            data@.len() > 0,
    {
        proof {
            crate::saved::encoding_is_not_empty(self@.saved());
        }
        encode(self.current_term, self.voted_for, &self.log)
    }

    /// Takes over the term, the vote and the log that were saved before a crash. No bytes, and
    /// bytes that [`Raft::persist`] never gives, change nothing.
    pub fn restore(&mut self, data: &[u8])
        requires
            old(self)@.valid(),
        ensures
            final(self)@ == old(self)@.recovered(data@),
            forall|s: SavedView| #[trigger]
                crate::saved::encoding(s) == data@ ==> final(self)@ == old(self)@.restored(s),
            data@.len() == 0 ==> final(self)@ == old(self)@,
            (forall|s: SavedView| #[trigger] crate::saved::encoding(s) != data@) ==> final(self)@
                == old(self)@,
            final(self)@.valid(),
    {
        proof {
            assert forall|s: SavedView| #[trigger] crate::saved::encoding(s).len() > 0 by {
                crate::saved::encoding_is_not_empty(s);
            }
            assert forall|a: SavedView, b: SavedView|
                #![trigger crate::saved::encoding(a), crate::saved::encoding(b)]
                crate::saved::encoding(a) == crate::saved::encoding(b) implies a == b by {
                crate::saved::encoding_is_injective(a, b);
            }
        }
        if data.is_empty() {
            return;
        }
        if let Some(saved) = decode(data) {
            let ghost s = saved@;
            self.current_term = saved.term;
            self.voted_for = saved.voted_for;
            self.log = saved.log;
            assert(self@ =~= old(self)@.restored(s));
        }
    }

    /// Whether the last entry is more up-to-date than one of `term` at `index`.
    pub fn is_newer(&self, term: u64, index: u64) -> (res: bool)
        ensures
            res == self@.is_newer(term, index),
    {
        let mut last_term: u64 = 0;
        let mut last_index: u64 = 0;
        if self.log.len() > 0 {
            let entry = &self.log[self.log.len() - 1];
            last_term = entry.term;
            last_index = entry.index;
        }
        last_term > term || (last_term == term && last_index > index)
    }

    /// Answers a candidate. A higher term is taken over whether or not the vote is granted; the
    /// answer carries the term from before.
    pub fn handle_request_vote(&mut self, args: RequestVoteArgs) -> (res: RequestVoteReply)
        ensures
            final(self)@ == old(self)@.after_request_vote(args),
            res == old(self)@.vote_reply(args),
    {
        let term = self.current_term;
        if args.term > term {
            self.current_term = args.term;
        }
        let vote_granted = if args.term < term || self.is_newer(
            args.last_log_term,
            args.last_log_index,
        ) {
            false
        } else if args.term > term {
            true
        } else {
            match self.voted_for {
                Some(id) => id == args.candidate_id as usize,
                None => true,
            }
        };
        if vote_granted {
            self.voted_for = Some(args.candidate_id as usize);
        }
        RequestVoteReply { term, vote_granted }
    }

    /// What stands against an entry of term `pre_term` at index `pre_index`, if anything does.
    pub fn is_conflict(&self, pre_index: usize, pre_term: u64) -> (res: Option<EntryConflict>)
        requires
            self@.valid(),
        ensures
            res == self@.conflict(pre_index, pre_term),
    {
        if pre_index == 0 {
            return if pre_term != 0 {
                Some(EntryConflict::new(0, 0))
            } else {
                None
            };
        }
        if pre_index > self.log.len() {
            return Some(EntryConflict::new(self.log.len() + 1, 0));
        }
        let term = self.log[pre_index - 1].term;
        if term == pre_term {
            return None;
        }
        let mut idx: usize = 1;
        let mut i: usize = pre_index - 1;
        while i > 0
            invariant
                0 <= i <= pre_index - 1 < self.log@.len(),
                ({
                    let end = RaftView::run_end(self@.log, term, i as int, pre_index - 1);
                    &&& i <= end <= pre_index - 1
                    &&& idx == if end == pre_index - 1 {
                        1
                    } else {
                        end + 2
                    }
                }),
            decreases i,
        {
            i -= 1;
            if self.log[i].term != term {
                idx = i + 2;
            }
        }
        Some(EntryConflict::new(idx, term))
    }

    /// Answers a leader, and takes its entries into the log unless they are refused. The answer
    /// carries the term from before.
    pub fn handle_append_entries(&mut self, args: AppendEntriesArgs) -> (res: AppendEntriesReply)
        requires
            old(self)@.valid(),
            old(self)@.after_append(args@).log.len() < usize::MAX,
        ensures
            final(self)@ == old(self)@.after_append(args@),
            final(self)@.valid(),
            res == old(self)@.append_reply(args@),
    {
        let mut args = args;
        let ghost sent = args@;
        let pre_idx: usize = args.prev_log_index as usize;
        let term = self.current_term;
        let conflict = if args.term < term {
            Some(EntryConflict::new(0, 0))
        } else {
            self.is_conflict(pre_idx, args.prev_log_term)
        };
        if conflict.is_none() {
            if args.term > term {
                self.current_term = args.term;
            }
            if args.entries.len() > 0 {
                let last = args.entries.len() - 1;
                assert(sent.entries.last() == args.entries[last as int]@);
                let last_idx: usize = args.entries[last].index as usize;
                let last_term = args.entries[last].term;
                if self.is_conflict(last_idx, last_term).is_some() {
                    self.log.truncate(pre_idx);
                    self.log.append(&mut args.entries);
                    assert(self@.log =~= old(self)@.log.take(pre_idx as int) + sent.entries);
                }
            }
            if args.leader_commit > self.commit_index as u64 {
                let limit = pre_idx.saturating_add(args.entries.len());
                let leader_commit: usize = args.leader_commit as usize;
                self.commit_index = if leader_commit < limit {
                    leader_commit
                } else {
                    limit
                };
            }
        }
        AppendEntriesReply { term, conflict }
    }

    /// The peers other than this one, in ascending order.
    fn others(&self) -> (res: Vec<usize>)
        ensures
            res@ == RaftView::others(self.me, self.peers as int),
    {
        let mut res: Vec<usize> = Vec::new();
        let mut i: usize = 0;
        while i < self.peers
            invariant
                i <= self.peers,
                res@ =~= RaftView::others(self.me, i as int),
            decreases self.peers - i,
        {
            if i != self.me {
                res.push(i);
            }
            i += 1;
        }
        res
    }

    /// The requests for votes in the current term.
    pub fn send_request_votes(&self) -> (res: VoteCall)
        ensures
            res@ == self@.vote_call(),
            res.round.valid(),
    {
        let last_log_term = if self.log.len() > 0 {
            self.log[self.log.len() - 1].term
        } else {
            0
        };
        let args = RequestVoteArgs {
            term: self.current_term,
            candidate_id: self.me as u64,
            last_log_index: self.log.len() as u64,
            last_log_term,
        };
        VoteCall {
            args,
            targets: self.others(),
            round: VoteRound::new(self.current_term, self.peers),
        }
    }

    /// The replication request for the peer `id`.
    pub fn append_entries_args(&self, id: usize) -> (res: AppendEntriesArgs)
        requires
            self@.valid(),
            id < self.peers,
            self@.heartbeat_ready(id as int),
        ensures
            res@ == self@.append_args(id as int),
    {
        let next_idx = self.next_index[id];
        let match_idx = self.match_index[id];
        let pre_idx = next_idx - 1;
        let pre_term = if pre_idx > 0 {
            self.log[pre_idx - 1].term
        } else {
            0
        };
        let entries = if next_idx > match_idx + 1 {
            Vec::new()
        } else {
            copy_from(&self.log, pre_idx)
        };
        let res = AppendEntriesArgs {
            term: self.current_term,
            leader_id: self.me as u64,
            prev_log_index: pre_idx as u64,
            prev_log_term: pre_term,
            entries,
            leader_commit: self.commit_index as u64,
        };
        assert(res@ =~= self@.append_args(id as int));
        res
    }

    /// The replication requests for all other peers.
    pub fn send_heartbeat(&self) -> (res: HeartbeatCall)
        requires
            self@.valid(),
            forall|id: int|
                0 <= id < self.peers && id != self.me ==> #[trigger] self@.heartbeat_ready(id),
        ensures
            res@ == self@.heartbeat_call(),
            forall|i: int|
                0 <= i < res.calls@.len() ==> (#[trigger] res.calls@[i])@.match_index()
                    <= usize::MAX,
    {
        let mut calls: Vec<AppendCall> = Vec::new();
        let mut i: usize = 0;
        while i < self.peers
            invariant
                i <= self.peers,
                self@.valid(),
                forall|id: int|
                    0 <= id < self.peers && id != self.me ==> #[trigger] self@.heartbeat_ready(id),
                crate::rounds::calls_view(calls@) =~= self@.append_calls(i as int),
            decreases self.peers - i,
        {
            if i != self.me {
                assert(self@.heartbeat_ready(i as int));
                let ghost before = calls@;
                let call = AppendCall { id: i, args: self.append_entries_args(i) };
                calls.push(call);
                assert(crate::rounds::calls_view(calls@) =~= crate::rounds::calls_view(before).push(
                    call@,
                ));
            }
            i += 1;
        }
        let res = HeartbeatCall { calls, round: AppendRound::new(self.current_term) };
        assert forall|i: int| 0 <= i < res.calls@.len() implies (
        #[trigger] res.calls@[i])@.match_index() <= usize::MAX by {
            let id = RaftView::others(self.me, self.peers as int)[i];
            assert(self@.heartbeat_ready(id as int));
            assert(res.calls@[i]@ == res@.calls[i]);
        }
        res
    }

    /// A random election timeout in milliseconds.
    pub fn election_timeout(&self) -> (res: u64)
        ensures
            ELECTION_TIMEOUT_START <= res < ELECTION_TIMEOUT_END,
    {
        draw(ELECTION_TIMEOUT_START, ELECTION_TIMEOUT_END)
    }

    /// The heartbeat interval in milliseconds.
    pub fn heartbeat_timeout(&self) -> (res: u64)
        ensures
            res == HEARTBEAT_TIMEOUT,
    {
        HEARTBEAT_TIMEOUT
    }

    /// Takes over as leader of the current term.
    pub fn become_leader(&mut self)
        requires
            old(self)@.valid(),
        ensures
            final(self)@ == old(self)@.leading(),
            final(self)@.valid(),
    {
        let next = self.log.len() + 1;
        let mut i: usize = 0;
        while i < self.peers
            invariant
                i <= self.peers,
                self.next_index@.len() == self.peers,
                self.match_index@.len() == self.peers,
                next == self.log@.len() + 1,
                forall|j: int| 0 <= j < i ==> self.next_index@[j] == next,
                forall|j: int| 0 <= j < i ==> self.match_index@[j] == 0,
                *self == (Raft {
                    next_index: self.next_index,
                    match_index: self.match_index,
                    ..*old(self)
                }),
            decreases self.peers - i,
        {
            self.next_index[i] = next;
            self.match_index[i] = 0;
            i += 1;
        }
        self.role = Role::Leader;
        self.is_leader = true;
        assert(self@ =~= old(self)@.leading());
    }

    /// Stands for election in a new term, with its own vote.
    pub fn become_candidate(&mut self) -> (res: VoteCall)
        requires
            old(self).current_term < u64::MAX,
        ensures
            final(self)@ == old(self)@.campaigning(),
            res@ == old(self)@.campaigning().vote_call(),
            res.round.valid(),
    {
        self.role = Role::Candidate;
        self.voted_for = Some(self.me);
        self.current_term = self.current_term + 1;
        self.send_request_votes()
    }

    /// Follows whoever leads.
    pub fn become_follower(&mut self)
        ensures
            final(self)@ == old(self)@.following(),
    {
        self.is_leader = false;
        self.role = Role::Follower;
    }

    /// Commits the entries up to `idx`, if that is an entry of the current term that a majority
    /// is known to hold, and hands the next one to the service.
    pub fn update_commit(&mut self, idx: usize) -> (res: Option<ApplyMsg>)
        requires
            old(self)@.valid(),
            idx > old(self).commit_index ==> idx <= old(self).log@.len(),
        ensures
            final(self)@ == if old(self)@.commits(idx) {
                old(self)@.committed(idx).after_apply()
            } else {
                old(self)@
            },
            apply_view(res) == if old(self)@.commits(idx) {
                old(self)@.committed(idx).apply_msg()
            } else {
                None
            },
    {
        if idx <= self.commit_index {
            return None;
        }
        if self.log[idx - 1].term != self.current_term {
            return None;
        }
        let sz = self.peers;
        let mut cnt: usize = 1;
        let mut update = false;
        let mut i: usize = 0;
        while i < sz && !update
            invariant
                i <= sz == self.peers,
                self@.valid(),
                cnt == 1 + self@.acks(idx, i as int),
                update <==> cnt > 1 && VoteRound::majority(cnt as int, sz as int),
            decreases sz - i,
        {
            if i != self.me && self.match_index[i] >= idx {
                cnt += 1;
                if cnt > sz / 2 {
                    update = true;
                }
            }
            i += 1;
        }
        proof {
            self@.lemma_acks_grow(idx, i as int, sz as int);
        }
        if update {
            self.commit_index = idx;
            return self.apply_entry();
        }
        None
    }

    /// Hands the next committed entry to the service, unless there is none or one is on its way.
    pub fn apply_entry(&mut self) -> (res: Option<ApplyMsg>)
        requires
            old(self)@.apply_ready(),
        ensures
            final(self)@ == old(self)@.after_apply(),
            apply_view(res) == old(self)@.apply_msg(),
    {
        if self.commit_index <= self.last_applied || self.applying {
            return None;
        }
        self.applying = true;
        let apply_idx = self.last_applied + 1;
        let command = self.log[apply_idx - 1].command.clone();
        assert(command@ =~= self.log@[self.last_applied as int].command@);
        Some(ApplyMsg { command_valid: true, command, command_index: apply_idx as u64 })
    }

    /// Appends the command to the log, if this peer believes it is the leader. The answer is the
    /// index at which the command will appear if it is ever committed, and the current term.
    pub fn start(&mut self, command: Vec<u8>) -> (res: Result<(u64, u64), Error>)
        requires
            old(self)@.valid(),
            old(self).is_leader ==> old(self).log@.len() + 1 < usize::MAX,
        ensures
            final(self)@ == old(self)@.after_start(command@),
            final(self)@.valid(),
            res == old(self)@.start_reply(),
    {
        if !self.is_leader {
            return Err(Error::NotLeader);
        }
        let index: u64 = 1 + self.log.len() as u64;
        let term = self.current_term;
        let entry = Entry { term, index, command };
        let ghost added = entry@;
        self.log.push(entry);
        assert(self@.log =~= old(self)@.log.push(added));
        Ok((index, term))
    }

    /// Whether the peer can handle the event as it stands. An event that it cannot handle is a
    /// fault of whoever produced it.
    pub fn accepts(&self, ev: &Event) -> (res: bool)
        requires
            self@.valid(),
        ensures
            res == self@.ready_for(*ev),
    {
        match ev {
            Event::Action(ActionEv::AppendEntries(args)) => self.accepts_append(args),
            Event::Action(ActionEv::UpdatePeer(term, id, res)) => if *term == self.current_term {
                if *id < self.peers {
                    match res {
                        Ok(idx) => {
                            let known = self.match_index[*id];
                            let idx = if known > *idx {
                                known
                            } else {
                                *idx
                            };
                            idx < usize::MAX && (idx <= self.commit_index || idx <= self.log.len())
                        },
                        Err(_) => true,
                    }
                } else {
                    false
                }
            } else {
                true
            },
            Event::Action(ActionEv::NewEntry(_)) => !self.is_leader || self.log.len() < usize::MAX
                - 1,
            Event::Action(ActionEv::ApplySuccess) => self.last_applied < usize::MAX && (
            self.commit_index <= self.last_applied + 1 || self.last_applied + 1 < self.log.len()),
            Event::Action(ActionEv::ApplyFailed) => self.commit_index <= self.last_applied
                || self.last_applied < self.log.len(),
            Event::Timeout(TimeoutEv::Election) => self.current_term < u64::MAX,
            Event::Timeout(TimeoutEv::Heartbeat) => self.role == Role::Leader
                && self.accepts_heartbeat(),
            _ => true,
        }
    }

    /// The part of [`Raft::accepts`] for entries of a leader.
    fn accepts_append(&self, args: &AppendEntriesArgs) -> (res: bool)
        requires
            self@.valid(),
        ensures
            res == self@.ready_for(Event::Action(ActionEv::AppendEntries(*args))),
    {
        if args.term < self.current_term {
            return true;
        }
        let pre_idx: usize = args.prev_log_index as usize;
        let mut log_len: usize = self.log.len();
        let mut commit_index = self.commit_index;
        if self.is_conflict(pre_idx, args.prev_log_term).is_none() {
            let mut count = args.entries.len();
            if count > 0 {
                assert(args@.entries.last() == args.entries[count - 1]@);
                let last_idx: usize = args.entries[count - 1].index as usize;
                if self.is_conflict(last_idx, args.entries[count - 1].term).is_some() {
                    if count >= usize::MAX - pre_idx {
                        return false;
                    }
                    log_len = pre_idx + count;
                    count = 0;
                }
            }
            if args.leader_commit > commit_index as u64 {
                let limit = pre_idx.saturating_add(count);
                let leader_commit: usize = args.leader_commit as usize;
                commit_index = if leader_commit < limit {
                    leader_commit
                } else {
                    limit
                };
            }
        }
        commit_index <= self.last_applied || self.applying || self.last_applied < log_len
    }

    /// The part of [`Raft::accepts`] for heartbeats.
    fn accepts_heartbeat(&self) -> (res: bool)
        requires
            self@.valid(),
        ensures
            res == (forall|id: int|
                0 <= id < self.peers && id != self.me ==> #[trigger] self@.heartbeat_ready(id)),
    {
        let mut i: usize = 0;
        while i < self.peers
            invariant
                i <= self.peers,
                self@.valid(),
                forall|id: int|
                    0 <= id < i && id != self.me ==> #[trigger] self@.heartbeat_ready(id),
            decreases self.peers - i,
        {
            if i != self.me {
                let next = self.next_index[i];
                if next < 1 || next > self.log.len() + 1 || self.match_index[i] == usize::MAX {
                    assert(!self@.heartbeat_ready(i as int));
                    return false;
                }
            }
            i += 1;
        }
        true
    }

    /// Handles an event: changes the state, and says what is to be done and which timer is to
    /// be set.
    pub fn handle_event(&mut self, ev: Event) -> (res: (Effects, Step))
        requires
            old(self)@.valid(),
            old(self)@.ready_for(ev),
        ensures
            final(self)@ == old(self)@.next(ev),
            final(self)@.valid(),
            res.0@ == old(self)@.effects(ev),
            res.1 == old(self)@.step(ev),
    {
        match ev {
            Event::Action(ev) => self.handle_action(ev),
            Event::Timeout(TimeoutEv::Election) => {
                let call = self.become_candidate();
                (Effects::sends(Sends::Votes(call)), Step::Rearm(TimeoutEv::Election))
            },
            Event::Timeout(TimeoutEv::Heartbeat) => {
                let call = self.send_heartbeat();
                (Effects::sends(Sends::Heartbeats(call)), Step::Rearm(TimeoutEv::Heartbeat))
            },
        }
    }

    /// The part of [`Raft::handle_event`] for events from the queue.
    fn handle_action(&mut self, ev: ActionEv) -> (res: (Effects, Step))
        requires
            old(self)@.valid(),
            old(self)@.ready_for(Event::Action(ev)),
        ensures
            final(self)@ == old(self)@.next(Event::Action(ev)),
            final(self)@.valid(),
            res.0@ == old(self)@.effects(Event::Action(ev)),
            res.1 == old(self)@.step(Event::Action(ev)),
    {
        match ev {
            ActionEv::RequestVote(args) => {
                let rep = self.handle_request_vote(args);
                let effects = Effects::reply(Reply::Vote(rep));
                if rep.vote_granted {
                    self.become_follower();
                    (effects, Step::Rearm(TimeoutEv::Election))
                } else {
                    (effects, Step::GoOn)
                }
            },
            ActionEv::AppendEntries(args) => {
                let args_term = args.term;
                let rep = self.handle_append_entries(args);
                if rep.term <= args_term {
                    let apply = self.apply_entry();
                    self.become_follower();
                    (
                        Effects { reply: Some(Reply::Append(rep)), apply, sends: Sends::Nothing },
                        Step::Rearm(TimeoutEv::Election),
                    )
                } else {
                    (Effects::reply(Reply::Append(rep)), Step::GoOn)
                }
            },
            ActionEv::FoundNewTerm(term) => if term > self.current_term {
                self.become_follower();
                (Effects::none(), Step::Rearm(TimeoutEv::Election))
            } else {
                (Effects::none(), Step::GoOn)
            },
            ActionEv::BecomeLeader(term) => if term == self.current_term {
                self.become_leader();
                (Effects::none(), Step::Rearm(TimeoutEv::Heartbeat))
            } else {
                (Effects::none(), Step::GoOn)
            },
            ActionEv::UpdatePeer(term, id, res) => if term == self.current_term {
                (Effects::apply(self.update_peer(id, res)), Step::GoOn)
            } else {
                (Effects::none(), Step::GoOn)
            },
            ActionEv::NewEntry(command) => {
                let res = self.start(command);
                (Effects::reply(Reply::Start(res)), Step::GoOn)
            },
            ActionEv::ApplySuccess => {
                self.last_applied = self.last_applied + 1;
                self.applying = false;
                let apply = self.apply_entry();
                (Effects::apply(apply), Step::GoOn)
            },
            ActionEv::ApplyFailed => {
                self.applying = false;
                let apply = self.apply_entry();
                (Effects::apply(apply), Step::GoOn)
            },
            ActionEv::Killed => (Effects::none(), Step::Stop),
        }
    }

    /// Takes note of what the peer `id` answered in the current term: the index up to which it
    /// accepted, or the one at which it wants to go on.
    fn update_peer(&mut self, id: usize, res: Result<usize, usize>) -> (apply: Option<ApplyMsg>)
        requires
            old(self)@.valid(),
            old(self)@.ready_for(
                Event::Action(ActionEv::UpdatePeer(old(self).current_term, id, res)),
            ),
        ensures
            final(self)@ == old(self)@.next(
                Event::Action(ActionEv::UpdatePeer(old(self).current_term, id, res)),
            ),
            final(self)@.valid(),
            apply_view(apply) == old(self)@.effects(
                Event::Action(ActionEv::UpdatePeer(old(self).current_term, id, res)),
            ).apply,
    {
        match res {
            Ok(idx) => {
                let known = self.match_index[id];
                let match_idx = if known > idx {
                    known
                } else {
                    idx
                };
                self.match_index[id] = match_idx;
                self.next_index[id] = match_idx + 1;
                assert(self@ =~= old(self)@.with_match(id as int, idx));
                self.update_commit(match_idx)
            },
            Err(idx) => {
                let next = self.next_index[id];
                let low = if next < idx {
                    next
                } else {
                    idx
                };
                self.next_index[id] = if low < 1 {
                    1
                } else {
                    low
                };
                None
            },
        }
    }

    /// Handles an event, and says what is to be done and for how long which timer is to run.
    pub fn serve_proc(&mut self, ev: Event) -> (res: (Effects, ProcResult))
        requires
            old(self)@.valid(),
            old(self)@.ready_for(ev),
        ensures
            final(self)@ == old(self)@.next(ev),
            final(self)@.valid(),
            res.0@ == old(self)@.effects(ev),
            old(self)@.step(ev).timed_as(res.1),
    {
        let (effects, step) = self.handle_event(ev);
        let result = match step {
            Step::Rearm(TimeoutEv::Election) => ProcResult::UpdateTimeout(
                self.election_timeout(),
                TimeoutEv::Election,
            ),
            Step::Rearm(TimeoutEv::Heartbeat) => ProcResult::UpdateTimeout(
                self.heartbeat_timeout(),
                TimeoutEv::Heartbeat,
            ),
            Step::GoOn => ProcResult::GoOn,
            Step::Stop => ProcResult::Stop,
        };
        (effects, result)
    }

    /// The loop that feeds this peer. It waits for an election timeout at first.
    pub fn serve(&self) -> (res: EventLoop)
        ensures
            res.timeout_ev == TimeoutEv::Election,
            res.running,
            ELECTION_TIMEOUT_START <= res.default_dur < ELECTION_TIMEOUT_END,
    {
        EventLoop::new(self.election_timeout(), TimeoutEv::Election)
    }
}

} // verus!
