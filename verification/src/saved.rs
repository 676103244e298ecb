//! What of a peer survives a crash, and how it is written down.
//!
//! The term comes first, as eight bytes with the lowest one in front. The vote follows: a zero,
//! or a one and the place of the peer that has the vote. The rest are the entries of the log. An
//! entry is its term, its index and its command; a command is cut into blocks of 255 bytes, each
//! after its length, and ends with a shorter block.
use vstd::prelude::*;

use crate::service::{Entry, EntryView};

verus! {

/// The state of a peer that survives a crash.
#[derive(Debug)]
pub struct Saved {
    pub term: u64,
    pub voted_for: Option<usize>,
    pub log: Vec<Entry>,
}

/// A [`Saved`] as a mathematical value.
#[verifier::ext_equal]
pub struct SavedView {
    pub term: u64,
    pub voted_for: Option<usize>,
    pub log: Seq<EntryView>,
}

impl View for Saved {
    type V = SavedView;

    open spec fn view(&self) -> SavedView {
        SavedView {
            term: self.term,
            voted_for: self.voted_for,
            log: crate::service::entries_view(self.log@),
        }
    }
}

// ---- the format ----
/// A number, lowest byte first.
pub open spec fn number(x: u64) -> Seq<u8> {
    vstd::bytes::spec_u64_to_le_bytes(x)
}

/// A vote.
pub open spec fn vote(voted_for: Option<usize>) -> Seq<u8> {
    match voted_for {
        None => seq![0u8],
        Some(id) => seq![1u8] + number(id as u64),
    }
}

/// A command, cut into blocks.
pub open spec fn blocks(command: Seq<u8>) -> Seq<u8>
    decreases command.len(),
{
    if command.len() < 255 {
        seq![command.len() as u8] + command
    } else {
        seq![255u8] + command.take(255) + blocks(command.skip(255))
    }
}

/// An entry.
pub open spec fn entry(e: EntryView) -> Seq<u8> {
    number(e.term) + number(e.index) + blocks(e.command)
}

/// The entries of a log, one after another.
pub open spec fn entries(log: Seq<EntryView>) -> Seq<u8>
    decreases log.len(),
{
    if log.len() == 0 {
        Seq::empty()
    } else {
        entry(log[0]) + entries(log.drop_first())
    }
}

/// What is written down.
pub open spec fn encoding(s: SavedView) -> Seq<u8> {
    number(s.term) + vote(s.voted_for) + entries(s.log)
}

// ---- the format can be read in one way only ----
proof fn parts_agree(a: Seq<u8>, b: Seq<u8>, r: Seq<u8>, s: Seq<u8>)
    requires
        a + r == b + s,
        a.len() == b.len(),
    ensures
        a == b,
        r == s,
{
    assert((a + r).take(a.len() as int) =~= a);
    assert((b + s).take(b.len() as int) =~= b);
    assert((a + r).skip(a.len() as int) =~= r);
    assert((b + s).skip(b.len() as int) =~= s);
}

proof fn numbers_agree(x: u64, y: u64, r: Seq<u8>, s: Seq<u8>)
    requires
        number(x) + r == number(y) + s,
    ensures
        x == y,
        r == s,
{
    vstd::bytes::lemma_auto_spec_u64_to_from_le_bytes();
    parts_agree(number(x), number(y), r, s);
}

proof fn blocks_agree(a: Seq<u8>, b: Seq<u8>, r: Seq<u8>, s: Seq<u8>)
    requires
        blocks(a) + r == blocks(b) + s,
    ensures
        a == b,
        r == s,
    decreases a.len(),
{
    assert((blocks(a) + r)[0] == blocks(a)[0]);
    assert((blocks(b) + s)[0] == blocks(b)[0]);
    if a.len() < 255 {
        assert(b.len() == a.len());
        parts_agree(blocks(a), blocks(b), r, s);
        assert(blocks(a).skip(1) =~= a);
        assert(blocks(b).skip(1) =~= b);
    } else {
        let x = seq![255u8] + a.take(255);
        let y = seq![255u8] + b.take(255);
        assert(blocks(a) + r =~= x + (blocks(a.skip(255)) + r));
        assert(blocks(b) + s =~= y + (blocks(b.skip(255)) + s));
        parts_agree(x, y, blocks(a.skip(255)) + r, blocks(b.skip(255)) + s);
        blocks_agree(a.skip(255), b.skip(255), r, s);
        assert(x.skip(1) =~= a.take(255));
        assert(y.skip(1) =~= b.take(255));
        assert(a =~= a.take(255) + a.skip(255));
        assert(b =~= b.take(255) + b.skip(255));
    }
}

proof fn entries_start_alike(e: EntryView, f: EntryView, r: Seq<u8>, s: Seq<u8>)
    requires
        entry(e) + r == entry(f) + s,
    ensures
        e == f,
        r == s,
{
    assert(entry(e) + r =~= number(e.term) + (number(e.index) + (blocks(e.command) + r)));
    assert(entry(f) + s =~= number(f.term) + (number(f.index) + (blocks(f.command) + s)));
    numbers_agree(
        e.term,
        f.term,
        number(e.index) + (blocks(e.command) + r),
        number(f.index) + (blocks(f.command) + s),
    );
    numbers_agree(e.index, f.index, blocks(e.command) + r, blocks(f.command) + s);
    blocks_agree(e.command, f.command, r, s);
}

proof fn entry_is_long(e: EntryView)
    ensures
        entry(e).len() >= 17,
{
    vstd::bytes::lemma_auto_spec_u64_to_from_le_bytes();
}

proof fn entries_agree(a: Seq<EntryView>, b: Seq<EntryView>)
    requires
        entries(a) == entries(b),
    ensures
        a == b,
    decreases a.len(),
{
    if a.len() > 0 {
        entry_is_long(a[0]);
    }
    if b.len() > 0 {
        entry_is_long(b[0]);
    }
    if a.len() > 0 {
        entries_start_alike(a[0], b[0], entries(a.drop_first()), entries(b.drop_first()));
        entries_agree(a.drop_first(), b.drop_first());
        assert(a =~= seq![a[0]] + a.drop_first());
        assert(b =~= seq![b[0]] + b.drop_first());
    } else {
        assert(a =~= b);
    }
}

/// Two states that are written down alike are the same.
pub proof fn encoding_is_injective(a: SavedView, b: SavedView)
    requires
        encoding(a) == encoding(b),
    ensures
        a == b,
{
    let r = vote(a.voted_for) + entries(a.log);
    let s = vote(b.voted_for) + entries(b.log);
    assert(encoding(a) =~= number(a.term) + r);
    assert(encoding(b) =~= number(b.term) + s);
    numbers_agree(a.term, b.term, r, s);
    assert(r[0] == vote(a.voted_for)[0]);
    assert(s[0] == vote(b.voted_for)[0]);
    vstd::bytes::lemma_auto_spec_u64_to_from_le_bytes();
    parts_agree(vote(a.voted_for), vote(b.voted_for), entries(a.log), entries(b.log));
    if a.voted_for is Some {
        assert(vote(a.voted_for).skip(1) =~= number(a.voted_for->0 as u64));
        assert(vote(b.voted_for).skip(1) =~= number(b.voted_for->0 as u64));
        assert(number(a.voted_for->0 as u64) + Seq::<u8>::empty() =~= number(
            b.voted_for->0 as u64,
        ) + Seq::<u8>::empty());
        numbers_agree(
            a.voted_for->0 as u64,
            b.voted_for->0 as u64,
            Seq::empty(),
            Seq::empty(),
        );
    }
    entries_agree(a.log, b.log);
}

/// What is written down is never empty.
pub proof fn encoding_is_not_empty(s: SavedView)
    ensures
        encoding(s).len() >= 9,
{
    vstd::bytes::lemma_auto_spec_u64_to_from_le_bytes();
}

/// A log is no longer than what is written down of it.
proof fn log_is_short(log: Seq<EntryView>)
    ensures
        17 * log.len() <= entries(log).len(),
    decreases log.len(),
{
    if log.len() > 0 {
        entry_is_long(log[0]);
        log_is_short(log.drop_first());
    }
}

// ---- writing ----
fn write_bytes(out: &mut Vec<u8>, bytes: &Vec<u8>, from: usize, to: usize)
    requires
        from <= to <= bytes@.len(),
    ensures
        final(out)@ == old(out)@ + bytes@.subrange(from as int, to as int),
{
    let mut i: usize = from;
    while i < to
        invariant
            from <= i <= to <= bytes@.len(),
            out@ =~= old(out)@ + bytes@.subrange(from as int, i as int),
        decreases to - i,
    {
        out.push(bytes[i]);
        i += 1;
    }
}

fn write_number(out: &mut Vec<u8>, x: u64)
    ensures
        final(out)@ == old(out)@ + number(x),
{
    let mut bytes = vstd::bytes::u64_to_le_bytes(x);
    out.append(&mut bytes);
}

fn write_blocks(out: &mut Vec<u8>, command: &Vec<u8>)
    ensures
        final(out)@ == old(out)@ + blocks(command@),
{
    let mut i: usize = 0;
    assert(command@.skip(0) =~= command@);
    while command.len() - i >= 255
        invariant
            i <= command@.len(),
            out@ + blocks(command@.skip(i as int)) == old(out)@ + blocks(command@),
        decreases command@.len() - i,
    {
        let ghost before = out@;
        let ghost rest = command@.skip(i as int);
        out.push(255);
        write_bytes(out, command, i, i + 255);
        proof {
            assert(rest.take(255) =~= command@.subrange(i as int, i + 255));
            assert(rest.skip(255) =~= command@.skip(i + 255));
            assert(before + blocks(rest) =~= out@ + blocks(command@.skip(i + 255)));
        }
        i += 255;
    }
    let ghost before = out@;
    let ghost rest = command@.skip(i as int);
    out.push((command.len() - i) as u8);
    write_bytes(out, command, i, command.len());
    proof {
        assert(rest =~= command@.subrange(i as int, command@.len() as int));
        assert(out@ =~= before + blocks(rest));
    }
}

/// Writes a state down.
pub fn encode(term: u64, voted_for: Option<usize>, log: &Vec<Entry>) -> (data: Vec<u8>)
    ensures
        data@ == encoding(
            SavedView { term, voted_for, log: crate::service::entries_view(log@) },
        ),
{
    let mut data: Vec<u8> = Vec::new();
    write_number(&mut data, term);
    match voted_for {
        None => data.push(0),
        Some(id) => {
            data.push(1);
            write_number(&mut data, id as u64);
        },
    }
    let ghost head = number(term) + vote(voted_for);
    let ghost all = crate::service::entries_view(log@);
    assert(data@ =~= head);
    assert(all.skip(0) =~= all);
    let mut i: usize = 0;
    while i < log.len()
        invariant
            i <= log@.len(),
            all == crate::service::entries_view(log@),
            data@ + entries(all.skip(i as int)) == head + entries(all),
        decreases log@.len() - i,
    {
        let ghost before = data@;
        let e = &log[i];
        write_number(&mut data, e.term);
        write_number(&mut data, e.index);
        write_blocks(&mut data, &e.command);
        proof {
            let rest = all.skip(i as int);
            assert(rest[0] == e@);
            assert(rest.drop_first() =~= all.skip(i + 1));
            assert(data@ =~= before + entry(e@));
            assert(before + entries(rest) =~= data@ + entries(all.skip(i + 1)));
        }
        i += 1;
    }
    assert(all.skip(i as int).len() == 0);
    assert(data@ =~= head + entries(all));
    data
}

// ---- reading ----
fn read_number(data: &[u8], pos: usize) -> (res: Option<(u64, usize)>)
    requires
        pos <= data@.len(),
    ensures
        match res {
            Some((x, end)) => end == pos + 8 <= data@.len() && data@.subrange(
                pos as int,
                end as int,
            ) == number(x),
            None => data@.len() < pos + 8,
        },
{
    if data.len() - pos < 8 {
        return None;
    }
    let bytes = vstd::slice::slice_subrange(data, pos, pos + 8);
    let x = vstd::bytes::u64_from_le_bytes(bytes);
    proof {
        vstd::bytes::lemma_auto_spec_u64_to_from_le_bytes();
        assert(number(vstd::bytes::spec_u64_from_le_bytes(bytes@)) == bytes@);
    }
    Some((x, pos + 8))
}

/// Whether a command stands at the front of the bytes.
spec fn starts_with_blocks(bytes: Seq<u8>) -> bool {
    exists|command: Seq<u8>| #[trigger] blocks(command).is_prefix_of(bytes)
}

proof fn first_block_is_there(bytes: Seq<u8>)
    requires
        starts_with_blocks(bytes),
    ensures
        bytes.len() > 0,
        bytes.len() >= 1 + bytes[0],
        bytes[0] == 255 ==> starts_with_blocks(bytes.skip(256)),
{
    let command = choose|command: Seq<u8>| #[trigger] blocks(command).is_prefix_of(bytes);
    assert(blocks(command)[0] == bytes[0]);
    if bytes[0] == 255 {
        let rest = blocks(command.skip(255));
        assert(blocks(command).skip(256) =~= rest);
        assert(rest =~= bytes.skip(256).subrange(0, rest.len() as int));
        assert(rest.is_prefix_of(bytes.skip(256)));
    }
}

/// Reads the block whose length stands at `pos`, and appends it to `out`.
fn read_block(data: &[u8], pos: usize, out: &mut Vec<u8>) -> (end: usize)
    requires
        pos < data@.len(),
        pos + 1 + data@[pos as int] <= data@.len(),
    ensures
        end == pos + 1 + data@[pos as int],
        final(out)@ == old(out)@ + data@.subrange(pos + 1, end as int),
{
    assert(data@.len() == data.len());
    let end: usize = pos + 1 + data[pos] as usize;
    let mut i: usize = pos + 1;
    while i < end
        invariant
            pos + 1 <= i <= end <= data@.len(),
            out@ =~= old(out)@ + data@.subrange(pos + 1, i as int),
        decreases end - i,
    {
        out.push(data[i]);
        i += 1;
    }
    end
}

fn read_blocks(data: &[u8], start: usize) -> (res: Option<(Vec<u8>, usize)>)
    requires
        start <= data@.len(),
    ensures
        match res {
            Some((command, end)) => start < end <= data@.len() && data@.subrange(
                start as int,
                end as int,
            ) == blocks(command@),
            None => !starts_with_blocks(data@.skip(start as int)),
        },
{
    let mut command: Vec<u8> = Vec::new();
    let mut pos: usize = start;
    proof {
        assert forall|rest: Seq<u8>| #[trigger]
            blocks(command@ + rest) == data@.subrange(start as int, pos as int) + blocks(rest) by {
            assert(command@ + rest =~= rest);
            assert(data@.subrange(start as int, pos as int) + blocks(rest) =~= blocks(rest));
        }
    }
    loop
        invariant
            start <= pos <= data@.len(),
            forall|rest: Seq<u8>| #[trigger]
                blocks(command@ + rest) == data@.subrange(start as int, pos as int) + blocks(rest),
            starts_with_blocks(data@.skip(start as int)) ==> starts_with_blocks(
                data@.skip(pos as int),
            ),
        decreases data@.len() - pos,
    {
        let ghost here = data@.skip(pos as int);
        proof {
            if starts_with_blocks(here) {
                first_block_is_there(here);
            }
        }
        if pos >= data.len() {
            return None;
        }
        let n = data[pos];
        assert(here[0] == n);
        if data.len() - pos < 1 + n as usize {
            return None;
        }
        let ghost before = command@;
        let end = read_block(data, pos, &mut command);
        let ghost block = data@.subrange(pos + 1, end as int);
        if n < 255 {
            proof {
                assert(blocks(before + block) == data@.subrange(start as int, pos as int) + blocks(
                    block,
                ));
                assert(data@.subrange(start as int, end as int) =~= data@.subrange(
                    start as int,
                    pos as int,
                ) + (seq![n] + block));
            }
            return Some((command, end));
        }
        proof {
            assert forall|rest: Seq<u8>| #[trigger]
                blocks(command@ + rest) == data@.subrange(start as int, end as int) + blocks(
                    rest,
                ) by {
                assert(command@ + rest =~= before + (block + rest));
                assert((block + rest).take(255) =~= block);
                assert((block + rest).skip(255) =~= rest);
                assert(blocks(before + (block + rest)) == data@.subrange(start as int, pos as int)
                    + blocks(block + rest));
                assert(data@.subrange(start as int, pos as int) + (seq![255u8] + block + blocks(
                    rest,
                )) =~= data@.subrange(start as int, end as int) + blocks(rest));
            }
            assert(here.skip(256) =~= data@.skip(end as int));
        }
        pos = end;
    }
}

fn read_entry(data: &[u8], start: usize) -> (res: Option<(Entry, usize)>)
    requires
        start <= data@.len(),
    ensures
        match res {
            Some((e, end)) => start < end <= data@.len() && data@.subrange(start as int, end as int)
                == entry(e@),
            None => forall|e: EntryView| !(#[trigger] entry(e)).is_prefix_of(
                data@.skip(start as int),
            ),
        },
{
    let ghost here = data@.skip(start as int);
    proof {
        assert forall|e: EntryView| (#[trigger] entry(e)).is_prefix_of(here) implies here.len()
            >= 17 && starts_with_blocks(here.skip(16)) by {
            entry_is_long(e);
            vstd::bytes::lemma_auto_spec_u64_to_from_le_bytes();
            let command = blocks(e.command);
            assert(entry(e).skip(16) =~= command);
            assert(command =~= here.skip(16).subrange(0, command.len() as int));
            assert(command.is_prefix_of(here.skip(16)));
        }
    }
    let (term, pos) = match read_number(data, start) {
        Some(read) => read,
        None => {
            return None;
        },
    };
    let (index, pos) = match read_number(data, pos) {
        Some(read) => read,
        None => {
            return None;
        },
    };
    assert(here.skip(16) =~= data@.skip(pos as int));
    match read_blocks(data, pos) {
        Some((command, end)) => {
            let e = Entry { term, index, command };
            assert(data@.subrange(start as int, end as int) =~= entry(e@));
            Some((e, end))
        },
        None => None,
    }
}

fn read_entries(data: &[u8], start: usize) -> (res: Option<Vec<Entry>>)
    requires
        start <= data@.len(),
    ensures
        match res {
            Some(log) => entries(crate::service::entries_view(log@)) == data@.skip(start as int),
            None => forall|log: Seq<EntryView>| #[trigger]
                entries(log) != data@.skip(start as int),
        },
{
    let mut log: Vec<Entry> = Vec::new();
    let mut pos: usize = start;
    let ghost mut done: Seq<EntryView> = Seq::empty();
    proof {
        assert forall|rest: Seq<EntryView>| #[trigger]
            entries(done + rest) == data@.subrange(start as int, pos as int) + entries(rest) by {
            assert(done + rest =~= rest);
            assert(data@.subrange(start as int, pos as int) + entries(rest) =~= entries(rest));
        }
    }
    while pos < data.len()
        invariant
            start <= pos <= data@.len(),
            done =~= crate::service::entries_view(log@),
            forall|rest: Seq<EntryView>| #[trigger]
                entries(done + rest) == data@.subrange(start as int, pos as int) + entries(rest),
            (exists|all: Seq<EntryView>| #[trigger] entries(all) == data@.skip(start as int)) ==> (
            exists|rest: Seq<EntryView>| #[trigger] entries(rest) == data@.skip(pos as int)),
        decreases data@.len() - pos,
    {
        let ghost here = data@.skip(pos as int);
        match read_entry(data, pos) {
            Some((e, end)) => {
                proof {
                    let before = done;
                    let read = e@;
                    done = before.push(read);
                    assert forall|rest: Seq<EntryView>| #[trigger]
                        entries(done + rest) == data@.subrange(start as int, end as int)
                            + entries(rest) by {
                        let more = seq![read] + rest;
                        assert(done + rest =~= before + more);
                        assert(more.drop_first() =~= rest);
                        assert(entries(before + more) == data@.subrange(start as int, pos as int)
                            + entries(more));
                        assert(data@.subrange(start as int, pos as int) + (entry(read) + entries(
                            rest,
                        )) =~= data@.subrange(start as int, end as int) + entries(rest));
                    }
                    if exists|rest: Seq<EntryView>| #[trigger] entries(rest) == here {
                        let rest = choose|rest: Seq<EntryView>| #[trigger] entries(rest) == here;
                        let tail = data@.skip(end as int);
                        assert(here =~= entry(read) + tail);
                        entries_start_alike(rest[0], read, entries(rest.drop_first()), tail);
                        assert(entries(rest.drop_first()) == tail);
                    }
                }
                log.push(e);
                pos = end;
            },
            None => {
                proof {
                    if exists|rest: Seq<EntryView>| #[trigger] entries(rest) == here {
                        let rest = choose|rest: Seq<EntryView>| #[trigger] entries(rest) == here;
                        let first = entry(rest[0]);
                        assert(first =~= here.subrange(0, first.len() as int));
                        assert(first.is_prefix_of(here));
                    }
                }
                return None;
            },
        }
    }
    proof {
        let none = Seq::<EntryView>::empty();
        assert(entries(done + none) == data@.subrange(start as int, pos as int) + entries(none));
        assert(done + none =~= done);
        assert(data@.subrange(start as int, pos as int) + entries(none) =~= data@.skip(
            start as int,
        ));
    }
    Some(log)
}

/// Reads a state, if the bytes are what is written down of one.
pub fn decode(data: &[u8]) -> (res: Option<Saved>)
    ensures
        match res {
            Some(s) => encoding(s@) == data@ && s.log@.len() < usize::MAX,
            None => forall|s: SavedView| #[trigger] encoding(s) != data@,
        },
{
    proof {
        assert forall|s: SavedView| #[trigger] encoding(s) == data@ implies data@.len() >= 9
            && data@.skip(8) == vote(s.voted_for) + entries(s.log) && data@[8] == vote(
            s.voted_for,
        )[0] && (s.voted_for is Some ==> data@.len() >= 17 && data@.subrange(9, 17) == number(
            s.voted_for->0 as u64,
        )) && data@.skip(8 + vote(s.voted_for).len() as int) == entries(s.log) by {
            vstd::bytes::lemma_auto_spec_u64_to_from_le_bytes();
            encoding_is_not_empty(s);
            assert(encoding(s).skip(8) =~= vote(s.voted_for) + entries(s.log));
            assert(encoding(s).skip(8 + vote(s.voted_for).len() as int) =~= entries(s.log));
            assert(encoding(s)[8] == vote(s.voted_for)[0]);
            if s.voted_for is Some {
                assert(encoding(s).subrange(9, 17) =~= number(s.voted_for->0 as u64));
            }
        }
        vstd::bytes::lemma_auto_spec_u64_to_from_le_bytes();
    }
    let (term, pos) = match read_number(data, 0) {
        Some(read) => read,
        None => {
            return None;
        },
    };
    if pos >= data.len() {
        return None;
    }
    let mut voted_for: Option<usize> = None;
    let mut start: usize = pos + 1;
    if data[pos] == 1 {
        match read_number(data, pos + 1) {
            Some((id, end)) => {
                if id > usize::MAX as u64 {
                    return None;
                }
                voted_for = Some(id as usize);
                start = end;
            },
            None => {
                return None;
            },
        }
    } else if data[pos] != 0 {
        return None;
    }
    match read_entries(data, start) {
        Some(log) => {
            let s = Saved { term, voted_for, log };
            proof {
                log_is_short(s@.log);
                assert(encoding(s@) =~= data@);
            }
            Some(s)
        },
        None => None,
    }
}

} // verus!
