//! What keeps a peer able to handle every event that it gets.
use vstd::prelude::*;

use crate::event::{ActionEv, Event, TimeoutEv};
use crate::model::RaftView;
use crate::peer::Role;

verus! {

/// Whether the parts of the state fit together: entries carry their indices, what is committed
/// stands in the log, the flag agrees with the role, and a leader's knowledge of the other
/// peers lies within its log.
pub open spec fn coherent(s: RaftView) -> bool {
    &&& s.valid()
    &&& crate::laws::replication::indexed(s.log)
    &&& s.commit_index <= s.log.len()
    &&& s.applying ==> s.last_applied < usize::MAX
    &&& s.is_leader <==> s.role == Role::Leader
    &&& s.role == Role::Leader ==> forall|id: int|
        0 <= id < s.peers ==> #[trigger] known_within_log(s, id)
}

/// Whether what is known of the peer `id` lies within the log.
pub open spec fn known_within_log(s: RaftView, id: int) -> bool {
    &&& 1 <= s.next_index[id] <= s.log.len() + 1
    &&& s.match_index[id] <= s.log.len()
}

/// Whether the event is one that peers and tasks which do their part can bring about: entries
/// are numbered and leave committed ones in place, peers exist and accept no more than the log
/// holds, a message is reported on while it is on its way, and the timer suits the role. Terms
/// and the length of the log stay within their types.
pub open spec fn sound(s: RaftView, ev: Event) -> bool {
    match ev {
        Event::Action(ActionEv::AppendEntries(args)) => {
            &&& crate::laws::replication::entries_indexed(args@)
            &&& args.prev_log_index + args.entries@.len() < usize::MAX
            &&& s.append_conflict(args@) is None && s.replaces(args@) ==> s.commit_index
                <= args.prev_log_index + args.entries@.len()
        },
        Event::Action(ActionEv::UpdatePeer(term, id, res)) => term == s.term ==> {
            &&& id < s.peers
            &&& res matches Ok(idx) ==> {
                &&& idx <= s.log.len()
                &&& s.role != Role::Leader ==> s.match_index[id as int] <= s.log.len()
            }
        },
        Event::Action(ActionEv::NewEntry(_)) => s.is_leader ==> s.log.len() + 1 < usize::MAX,
        Event::Action(ActionEv::ApplySuccess) => s.applying,
        Event::Action(ActionEv::ApplyFailed) => s.applying,
        Event::Timeout(TimeoutEv::Election) => s.role != Role::Leader && s.term < u64::MAX,
        Event::Timeout(TimeoutEv::Heartbeat) => s.role == Role::Leader,
        _ => true,
    }
}

/// A new peer is coherent.
pub proof fn new_peer_is_coherent(peers: usize, me: usize)
    ensures
        coherent(RaftView::initial(peers, me)),
{
}

/// A coherent peer can handle every sound event, and is coherent afterwards.
pub proof fn sound_events_keep_peer_coherent(s: RaftView, ev: Event)
    requires
        coherent(s),
        sound(s, ev),
    ensures
        s.ready_for(ev),
        coherent(s.next(ev)),
{
    let t = s.next(ev);
    match ev {
        Event::Action(ActionEv::AppendEntries(args)) => {
            assert(args@.entries.len() == args.entries@.len());
            if args@.entries.len() > 0 {
                assert(args@.entries.last().index == args.prev_log_index + args.entries@.len());
            }
        },
        Event::Timeout(TimeoutEv::Heartbeat) => {
            assert forall|id: int| 0 <= id < s.peers && id != s.me implies
                #[trigger] s.heartbeat_ready(id) by {
                assert(known_within_log(s, id));
            }
        },
        Event::Action(ActionEv::UpdatePeer(term, id, res)) => {
            if term == s.term && s.role == Role::Leader {
                assert(known_within_log(s, id as int));
            }
        },
        _ => {},
    }
    if t.role == Role::Leader {
        assert forall|id: int| 0 <= id < t.peers implies #[trigger] known_within_log(t, id) by {
            if s.role == Role::Leader {
                assert(known_within_log(s, id));
            }
        }
    }
}

} // verus!
