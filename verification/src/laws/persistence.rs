//! What survives a crash.
use vstd::prelude::*;

use crate::model::RaftView;
use crate::saved::SavedView;

verus! {

/// A peer that is made from what another one has saved has the term, the vote and the log of
/// that one, and is otherwise new.
pub proof fn saved_state_comes_back(s: RaftView, peers: usize, me: usize)
    ensures
        ({
            let data = crate::saved::encoding(s.saved());
            let t = RaftView::initial(peers, me).recovered(data);
            &&& data.len() > 0
            &&& t.term == s.term
            &&& t.voted_for == s.voted_for
            &&& t.log == s.log
            &&& t == RaftView::initial(peers, me).restored(s.saved())
        }),
{
    let data = crate::saved::encoding(s.saved());
    crate::saved::encoding_is_not_empty(s.saved());
    let found = choose|v| #[trigger] crate::saved::encoding(v) == data;
    crate::saved::encoding_is_injective(found, s.saved());
}

/// Whatever a peer was like before, what was saved gives it its term, its vote and its log, and
/// leaves the rest. Bytes that are not what is written down of a state leave all of it.
pub proof fn saved_state_is_taken_over(s: RaftView, v: SavedView, data: Seq<u8>)
    ensures
        s.restored(v).term == v.term,
        s.restored(v).voted_for == v.voted_for,
        s.restored(v).log == v.log,
        s.restored(v) == (RaftView { term: v.term, voted_for: v.voted_for, log: v.log, ..s }),
        s.recovered(crate::saved::encoding(v)) == s.restored(v),
        (forall|w: SavedView| #[trigger] crate::saved::encoding(w) != data) ==> s.recovered(data)
            == s,
{
    let bytes = crate::saved::encoding(v);
    let found = choose|w: SavedView| #[trigger] crate::saved::encoding(w) == bytes;
    crate::saved::encoding_is_injective(found, v);
}

/// A crash changes nothing in what is saved: a peer can crash again before it has done anything.
pub proof fn restarts_keep_saved_state(s: RaftView)
    ensures
        s.restarted().saved() == s.saved(),
        s.restarted().restarted() == s.restarted(),
        crate::saved::encoding(s.restarted().saved()) == crate::saved::encoding(s.saved()),
{
}

/// A peer that is started again is valid if it was so before.
pub proof fn restarted_peer_is_valid(s: RaftView)
    requires
        s.valid(),
    ensures
        s.restarted().valid(),
        s.restarted() == RaftView::initial(s.peers, s.me).recovered(
            crate::saved::encoding(s.saved()),
        ),
{
    saved_state_comes_back(s, s.peers, s.me);
}

} // verus!
