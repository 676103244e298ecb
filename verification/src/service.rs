//! The messages that peers exchange.
use vstd::prelude::*;

verus! {

/// What a candidate sends to ask for a vote.
#[derive(Clone, Copy, Debug, Default, PartialEq, Eq, Structural)]
pub struct RequestVoteArgs {
    pub term: u64,
    pub candidate_id: u64,
    pub last_log_index: u64,
    pub last_log_term: u64,
}

/// The answer to a [`RequestVoteArgs`].
#[derive(Clone, Copy, Debug, Default, PartialEq, Eq, Structural)]
pub struct RequestVoteReply {
    pub term: u64,
    pub vote_granted: bool,
}

/// One entry of a log.
#[derive(Debug, Default, PartialEq, Eq)]
pub struct Entry {
    pub term: u64,
    pub index: u64,
    pub command: Vec<u8>,
}

/// An [`Entry`] as a mathematical value.
#[verifier::ext_equal]
pub struct EntryView {
    pub term: u64,
    pub index: u64,
    pub command: Seq<u8>,
}

impl View for Entry {
    type V = EntryView;

    open spec fn view(&self) -> EntryView {
        EntryView { term: self.term, index: self.index, command: self.command@ }
    }
}

impl Clone for Entry {
    fn clone(&self) -> (res: Self)
        ensures
            res@ == self@,
    {
        let res = Entry { term: self.term, index: self.index, command: self.command.clone() };
        assert(res.command@ =~= self.command@);
        res
    }
}

/// The entries of a log or of a message as mathematical values.
pub open spec fn entries_view(entries: Seq<Entry>) -> Seq<EntryView> {
    Seq::new(entries.len(), |i: int| entries[i]@)
}

/// Copies the entries from position `from` on.
pub fn copy_from(entries: &Vec<Entry>, from: usize) -> (res: Vec<Entry>)
    requires
        from <= entries@.len(),
    ensures
        entries_view(res@) == entries_view(entries@).skip(from as int),
{
    let mut res: Vec<Entry> = Vec::new();
    let mut i: usize = from;
    while i < entries.len()
        invariant
            from <= i <= entries@.len(),
            entries_view(res@) =~= entries_view(entries@).subrange(from as int, i as int),
        decreases entries@.len() - i,
    {
        let ghost copied = res@;
        let entry = entries[i].clone();
        res.push(entry);
        proof {
            assert(entries_view(res@) =~= entries_view(copied).push(entries[i as int]@));
        }
        i += 1;
    }
    res
}

/// Where a follower's log departs from what a leader assumes of it.
#[derive(Clone, Copy, Debug, Default, PartialEq, Eq, Structural)]
pub struct EntryConflict {
    pub log_index: u64,
    pub log_term: u64,
}

impl EntryConflict {
    pub fn new(log_index: usize, log_term: u64) -> (res: EntryConflict)
        ensures
            res == (EntryConflict { log_index: log_index as u64, log_term }),
    {
        EntryConflict { log_index: log_index as u64, log_term }
    }
}

/// What a leader sends to replicate its log, or, without entries, as a heartbeat.
#[derive(Debug, Default, PartialEq, Eq)]
pub struct AppendEntriesArgs {
    pub term: u64,
    pub leader_id: u64,
    pub prev_log_index: u64,
    pub prev_log_term: u64,
    pub entries: Vec<Entry>,
    pub leader_commit: u64,
}

/// An [`AppendEntriesArgs`] as a mathematical value.
#[verifier::ext_equal]
pub struct AppendEntriesArgsView {
    pub term: u64,
    pub leader_id: u64,
    pub prev_log_index: u64,
    pub prev_log_term: u64,
    pub entries: Seq<EntryView>,
    pub leader_commit: u64,
}

impl View for AppendEntriesArgs {
    type V = AppendEntriesArgsView;

    open spec fn view(&self) -> AppendEntriesArgsView {
        AppendEntriesArgsView {
            term: self.term,
            leader_id: self.leader_id,
            prev_log_index: self.prev_log_index,
            prev_log_term: self.prev_log_term,
            entries: entries_view(self.entries@),
            leader_commit: self.leader_commit,
        }
    }
}

impl Clone for AppendEntriesArgs {
    fn clone(&self) -> (res: Self)
        ensures
            res@ == self@,
    {
        let entries = copy_from(&self.entries, 0);
        assert(entries_view(self.entries@).skip(0) =~= entries_view(self.entries@));
        AppendEntriesArgs {
            term: self.term,
            leader_id: self.leader_id,
            prev_log_index: self.prev_log_index,
            prev_log_term: self.prev_log_term,
            entries,
            leader_commit: self.leader_commit,
        }
    }
}

/// The answer to an [`AppendEntriesArgs`]: `conflict` is `None` if it was accepted.
#[derive(Clone, Copy, Debug, Default, PartialEq, Eq)]
pub struct AppendEntriesReply {
    pub term: u64,
    pub conflict: Option<EntryConflict>,
}

impl AppendEntriesReply {
    /// Whether the entries were accepted.
    pub fn success(&self) -> (res: bool)
        ensures
            res == (self.conflict is None),
    {
        self.conflict.is_none()
    }
}

} // verus!
