//! What the service sees of a running peer.
use vstd::prelude::*;

use crate::event::ActionEv;
use crate::peer::Raft;

verus! {

/// Why a command was not taken.
#[derive(Clone, Copy, Debug, PartialEq, Eq, Structural)]
pub enum Error {
    /// The command has no encoding.
    Encode,
    /// The peer is not the leader, or no longer runs.
    NotLeader,
}

/// State of a raft peer.
#[derive(Clone, Copy, Debug, PartialEq, Eq, Structural)]
pub struct State {
    pub term: u64,
    pub is_leader: bool,
}

impl Default for State {
    fn default() -> (res: State)
        ensures
            res == (State { term: 0, is_leader: false }),
    {
        State { term: 0, is_leader: false }
    }
}

impl State {
    /// The current term of this peer.
    pub fn term(&self) -> (res: u64)
        ensures
            res == self.term,
    {
        self.term
    }

    /// Whether this peer believes it is the leader.
    pub fn is_leader(&self) -> (res: bool)
        ensures
            res == self.is_leader,
    {
        self.is_leader
    }
}

/// How far a call of [`Node::start`] has come.
#[derive(Debug)]
pub enum StartEvent {
    /// The service made the call.
    Called,
    /// The command was encoded; `None` if that failed.
    Encoded(Option<Vec<u8>>),
    /// The event was put into the queue of the peer, or could not be.
    Sent(bool),
    /// The peer answered; `None` if it went away instead.
    Answered(Option<Result<(u64, u64), Error>>),
}

/// What is to be done next for a call of [`Node::start`].
#[derive(Debug)]
pub enum StartAction {
    /// Encode the command.
    Encode,
    /// Put this event into the queue of the peer.
    Send(ActionEv),
    /// Wait for the answer of the peer.
    Await,
    /// The call returns this.
    Return(Result<(u64, u64), Error>),
}

/// What is to be done to end a peer.
#[derive(Clone, Copy, Debug, PartialEq, Eq, Structural)]
pub enum KillAction {
    /// Put [`ActionEv::Killed`] into the queue of the peer and wait until it has ended.
    Stop,
    /// The peer was ended before.
    AlreadyKilled,
}

/// The handle that the service holds on a peer: the state that the peer last made known, and
/// whether the peer still runs.
#[derive(Debug, PartialEq, Eq, Structural)]
pub struct Node {
    pub term: u64,
    pub is_leader: bool,
    pub running: bool,
}

impl Node {
    /// What is to be done next for a call of [`Node::start`].
    pub open spec fn start_action(self, ev: StartEvent) -> StartAction {
        match ev {
            StartEvent::Called => if self.is_leader {
                StartAction::Encode
            } else {
                StartAction::Return(Err(Error::NotLeader))
            },
            StartEvent::Encoded(Some(command)) => StartAction::Send(ActionEv::NewEntry(command)),
            StartEvent::Encoded(None) => StartAction::Return(Err(Error::Encode)),
            StartEvent::Sent(true) => StartAction::Await,
            StartEvent::Sent(false) => StartAction::Return(Err(Error::NotLeader)),
            StartEvent::Answered(Some(res)) => StartAction::Return(res),
            StartEvent::Answered(None) => StartAction::Return(Err(Error::NotLeader)),
        }
    }

    /// The handle on a peer that starts to run.
    pub fn new(raft: &Raft) -> (res: Node)
        ensures
            res == (Node {
                term: raft.current_term,
                is_leader: raft.is_leader,
                running: true,
            }),
    {
        Node { term: raft.current_term, is_leader: raft.is_leader, running: true }
    }

    /// Makes the state of the peer known.
    pub fn publish(&mut self, raft: &Raft)
        ensures
            *final(self) == (Node {
                term: raft.current_term,
                is_leader: raft.is_leader,
                running: old(self).running,
            }),
    {
        self.term = raft.current_term;
        self.is_leader = raft.is_leader;
    }

    /// The service wants to start agreement on a command. If this peer is not the leader, the
    /// call returns [`Error::NotLeader`]. Otherwise the encoded command is handed to the peer,
    /// whose answer is the index at which the command will appear if it is ever committed, and
    /// the current term. If the peer has gone away, the call returns [`Error::NotLeader`] too.
    ///
    /// The call goes through its steps by being told what has happened and by saying what is to
    /// be done next, until it says what to return.
    pub fn start(&self, ev: StartEvent) -> (res: StartAction)
        ensures
            res == self.start_action(ev),
    {
        match ev {
            StartEvent::Called => if self.is_leader() {
                StartAction::Encode
            } else {
                StartAction::Return(Err(Error::NotLeader))
            },
            StartEvent::Encoded(Some(command)) => StartAction::Send(ActionEv::NewEntry(command)),
            StartEvent::Encoded(None) => StartAction::Return(Err(Error::Encode)),
            StartEvent::Sent(true) => StartAction::Await,
            StartEvent::Sent(false) => StartAction::Return(Err(Error::NotLeader)),
            StartEvent::Answered(Some(res)) => StartAction::Return(res),
            StartEvent::Answered(None) => StartAction::Return(Err(Error::NotLeader)),
        }
    }

    /// The current term of this peer.
    pub fn term(&self) -> (res: u64)
        ensures
            res == self.term,
    {
        self.term
    }

    /// Whether this peer believes it is the leader.
    pub fn is_leader(&self) -> (res: bool)
        ensures
            res == self.is_leader,
    {
        self.is_leader
    }

    /// The current state of this peer.
    pub fn get_state(&self) -> (res: State)
        ensures
            res == (State { term: self.term, is_leader: self.is_leader }),
    {
        State { term: self.term(), is_leader: self.is_leader() }
    }

    /// Ends the peer, unless that was done before.
    pub fn kill(&mut self) -> (res: KillAction)
        ensures
            res == if old(self).running {
                KillAction::Stop
            } else {
                KillAction::AlreadyKilled
            },
            *final(self) == (Node { running: false, ..*old(self) }),
    {
        if self.running {
            self.running = false;
            KillAction::Stop
        } else {
            KillAction::AlreadyKilled
        }
    }
}

} // verus!
