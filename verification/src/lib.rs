//! A Raft peer as a verified state machine.
//!
//! [`Raft`] holds the state of one peer and decides what each event does to it.
//! It performs no input or output: every handler returns the replies, requests and
//! messages that the caller has to send.

pub mod event;
pub mod event_loop;
pub mod laws;
pub mod model;
pub mod node;
pub mod peer;
pub mod rounds;
pub mod saved;
pub mod service;
pub mod timing;

pub use event::{ActionEv, Effects, Event, ProcResult, Reply, Sends, Step, TimeoutEv};
pub use event_loop::{EventLoop, LoopAction, LoopEvent};
pub use node::{Error, KillAction, Node, StartAction, StartEvent, State};
pub use peer::{ApplyMsg, Raft, Role};
pub use rounds::{AppendCall, AppendRound, HeartbeatCall, VoteCall, VoteRound};
pub use service::{
    AppendEntriesArgs, AppendEntriesReply, Entry, EntryConflict, RequestVoteArgs, RequestVoteReply,
};
