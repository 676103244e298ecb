//! What happens to a peer, and what it asks its surroundings to do in return.
use vstd::prelude::*;

use crate::node::Error;
use crate::peer::{ApplyMsg, ApplyMsgView};
use crate::rounds::{HeartbeatCall, HeartbeatCallView, VoteCall, VoteCallView};
use crate::service::{
    AppendEntriesArgs, AppendEntriesReply, RequestVoteArgs, RequestVoteReply,
};
use crate::timing::{ELECTION_TIMEOUT_END, ELECTION_TIMEOUT_START, HEARTBEAT_TIMEOUT};

verus! {

/// How long to wait before a message that the service did not take is reported as failed,
/// in milliseconds.
pub const APPLY_RETRY_DELAY: u64 = 70;

/// Which timer ran out.
#[derive(Clone, Copy, Debug, PartialEq, Eq, Structural)]
pub enum TimeoutEv {
    Election,
    Heartbeat,
}

/// Something that another task or another peer asks of this one.
#[derive(Debug)]
pub enum ActionEv {
    /// A candidate asks for a vote.
    RequestVote(RequestVoteArgs),
    /// A leader replicates its log.
    AppendEntries(AppendEntriesArgs),
    /// Another peer answered with this higher term.
    FoundNewTerm(u64),
    /// The election of this term was won.
    BecomeLeader(u64),
    /// In this term, this peer accepted entries up to an index, or named where to go on.
    UpdatePeer(u64, usize, Result<usize, usize>),
    /// The service wants this command in the log.
    NewEntry(Vec<u8>),
    /// The service took the message that was sent to it.
    ApplySuccess,
    /// The service did not take the message that was sent to it.
    ApplyFailed,
    /// The peer is no longer needed.
    Killed,
}

/// Everything that a peer reacts to.
#[derive(Debug)]
pub enum Event {
    Action(ActionEv),
    Timeout(TimeoutEv),
}

/// What an event means for the event loop, before a duration is chosen for the timer.
#[derive(Clone, Copy, Debug, PartialEq, Eq, Structural)]
pub enum Step {
    /// Start the timer anew for this event.
    Rearm(TimeoutEv),
    /// Leave the timer as it is.
    GoOn,
    /// End the event loop.
    Stop,
}

impl Step {
    /// Whether `res` is this step with a fitting duration: one out of the range for election
    /// timeouts, or the heartbeat interval.
    pub open spec fn timed_as(self, res: ProcResult) -> bool {
        match self {
            Step::Rearm(TimeoutEv::Election) => {
                &&& res matches ProcResult::UpdateTimeout(dur, TimeoutEv::Election)
                &&& ELECTION_TIMEOUT_START <= dur < ELECTION_TIMEOUT_END
            },
            Step::Rearm(TimeoutEv::Heartbeat) => res == ProcResult::UpdateTimeout(
                HEARTBEAT_TIMEOUT,
                TimeoutEv::Heartbeat,
            ),
            Step::GoOn => res == ProcResult::GoOn,
            Step::Stop => res == ProcResult::Stop,
        }
    }
}

/// What an event means for the event loop; durations are in milliseconds.
#[derive(Clone, Copy, Debug, PartialEq, Eq, Structural)]
pub enum ProcResult {
    UpdateTimeout(u64, TimeoutEv),
    GoOn,
    Stop,
}

/// The answer that is owed to whoever caused the event.
#[derive(Clone, Copy, Debug, PartialEq, Eq)]
pub enum Reply {
    Vote(RequestVoteReply),
    Append(AppendEntriesReply),
    Start(Result<(u64, u64), Error>),
}

/// The requests that are to be sent to the other peers.
#[derive(Debug)]
pub enum Sends {
    Nothing,
    Votes(VoteCall),
    Heartbeats(HeartbeatCall),
}

/// [`Sends`] as a mathematical value.
#[verifier::ext_equal]
pub enum SendsView {
    Nothing,
    Votes(VoteCallView),
    Heartbeats(HeartbeatCallView),
}

impl View for Sends {
    type V = SendsView;

    open spec fn view(&self) -> SendsView {
        match self {
            Sends::Nothing => SendsView::Nothing,
            Sends::Votes(call) => SendsView::Votes(call@),
            Sends::Heartbeats(call) => SendsView::Heartbeats(call@),
        }
    }
}

/// All that an event asks the surroundings to do.
#[derive(Debug)]
pub struct Effects {
    /// The answer to the event.
    pub reply: Option<Reply>,
    /// A message for the service.
    pub apply: Option<ApplyMsg>,
    /// Requests for the other peers.
    pub sends: Sends,
}

/// [`Effects`] as a mathematical value.
#[verifier::ext_equal]
pub struct EffectsView {
    pub reply: Option<Reply>,
    pub apply: Option<ApplyMsgView>,
    pub sends: SendsView,
}

impl EffectsView {
    pub open spec fn none() -> EffectsView {
        EffectsView { reply: None, apply: None, sends: SendsView::Nothing }
    }
}

impl View for Effects {
    type V = EffectsView;

    open spec fn view(&self) -> EffectsView {
        EffectsView {
            reply: self.reply,
            apply: crate::peer::apply_view(self.apply),
            sends: self.sends@,
        }
    }
}

impl Effects {
    /// Nothing to do.
    pub fn none() -> (res: Effects)
        ensures
            res@ == EffectsView::none(),
    {
        Effects { reply: None, apply: None, sends: Sends::Nothing }
    }

    /// Only an answer.
    pub fn reply(reply: Reply) -> (res: Effects)
        ensures
            res@ == (EffectsView { reply: Some(reply), ..EffectsView::none() }),
    {
        Effects { reply: Some(reply), apply: None, sends: Sends::Nothing }
    }

    /// At most a message for the service.
    pub fn apply(apply: Option<ApplyMsg>) -> (res: Effects)
        ensures
            res@ == (EffectsView { apply: crate::peer::apply_view(apply), ..EffectsView::none() }),
    {
        Effects { reply: None, apply, sends: Sends::Nothing }
    }

    /// Only requests.
    pub fn sends(sends: Sends) -> (res: Effects)
        ensures
            res@ == (EffectsView { sends: sends@, ..EffectsView::none() }),
    {
        Effects { reply: None, apply: None, sends }
    }
}

/// The event that follows an attempt to hand a message to the service, and the delay after
/// which it is reported: at once if the service took the message, otherwise after
/// [`APPLY_RETRY_DELAY`].
pub fn apply_outcome(taken: bool) -> (res: (u64, ActionEv))
    ensures
        taken ==> res == (0u64, ActionEv::ApplySuccess),
        !taken ==> res == (APPLY_RETRY_DELAY, ActionEv::ApplyFailed),
{
    if taken {
        (0, ActionEv::ApplySuccess)
    } else {
        (APPLY_RETRY_DELAY, ActionEv::ApplyFailed)
    }
}

} // verus!
