//! Bounded ring buffer of service log lines with drop counting and
//! sequence numbers for resuming a tail.

use vstd::prelude::*;
use std::collections::VecDeque;

verus! {

/// Which output stream a log line came from.
#[derive(Debug, Clone, Copy, PartialEq, Eq)]
pub enum LogStream {
    /// Standard output.
    Stdout,
    /// Standard error.
    Stderr,
}

/// A single log entry captured from a service's stdout/stderr.
#[derive(Debug, PartialEq, Eq)]
pub struct LogEntry {
    /// Sequence number assigned by the ring.
    pub seq: u64,
    /// Stream the line came from.
    pub stream: LogStream,
    /// Raw content of the line, without trailing newline.
    pub content: String,
    /// Timestamp in RFC 3339 format.
    pub timestamp: String,
}

impl Clone for LogEntry {
    fn clone(&self) -> (c: Self)
        ensures
            c == *self,
    {
        LogEntry {
            seq: self.seq,
            stream: self.stream,
            content: self.content.clone(),
            timestamp: self.timestamp.clone(),
        }
    }
}

/// `x + 1` with wrap-around at 2^64.
pub open spec fn seq_succ(x: u64) -> u64 {
    ((x as int + 1) % 0x1_0000_0000_0000_0000) as u64
}

/// Entries carry consecutive sequence numbers ending just before `next`.
pub open spec fn consecutive(entries: Seq<LogEntry>, next: u64) -> bool {
    &&& forall|i: int| 0 <= i < entries.len() - 1 ==> #[trigger] entries[i + 1].seq == seq_succ(entries[i].seq)
    &&& entries.len() > 0 ==> seq_succ(entries.last().seq) == next
}

/// The entries of `s` whose sequence number is above `after`.
pub open spec fn entries_after(s: Seq<LogEntry>, after: u64) -> Seq<LogEntry> {
    s.filter(|e: LogEntry| e.seq > after)
}

/// A bounded-capacity ring buffer of recent log entries.
///
/// When capacity is exceeded the oldest entry is dropped and the drop
/// counter is incremented; each pushed entry receives the next sequence number.
#[derive(Debug)]
pub struct LogRing {
    capacity: usize,
    total_dropped: u64,
    next_seq: u64,
    entries: VecDeque<LogEntry>,
}

impl LogRing {
    /// The retained entries, oldest first.
    pub closed spec fn entries(&self) -> Seq<LogEntry> {
        self.entries@
    }

    /// Maximum number of retained entries.
    pub closed spec fn capacity(&self) -> nat {
        self.capacity as nat
    }

    /// Number of entries dropped so far (saturating).
    pub closed spec fn dropped(&self) -> u64 {
        self.total_dropped
    }

    /// The sequence number the next pushed entry will get.
    pub closed spec fn next(&self) -> u64 {
        self.next_seq
    }

    /// The ring's invariant: positive capacity, no more entries than the
    /// capacity, and consecutive sequence numbers ending just before the
    /// next one to be assigned.
    #[verifier::type_invariant]
    spec fn wf(self) -> bool {
        &&& self.capacity > 0
        &&& self.entries@.len() <= self.capacity
        &&& consecutive(self.entries@, self.next_seq)
    }

    /// Create an empty ring holding at most `capacity` entries.
    pub fn new(capacity: usize) -> (r: Self)
        requires
            capacity > 0,
        ensures
            r.capacity() == capacity,
            r.entries() == Seq::<LogEntry>::empty(),
            r.dropped() == 0,
            r.next() == 0,
    {
        LogRing { capacity, total_dropped: 0, next_seq: 0, entries: VecDeque::with_capacity(capacity) }
    }

    /// Push an entry, assigning it the next sequence number; when the ring
    /// is full the oldest entry is dropped first and the drop counter grows.
    /// The retained entries stay within the capacity and keep consecutive
    /// sequence numbers ending just before the next one.
    pub fn push(&mut self, entry: LogEntry)
        ensures
            final(self).capacity() == old(self).capacity(),
            final(self).entries().len() <= final(self).capacity(),
            consecutive(final(self).entries(), final(self).next()),
            final(self).next() == seq_succ(old(self).next()),
            old(self).dropped() < u64::MAX ==> final(self).entries().len() + final(self).dropped()
                == old(self).entries().len() + old(self).dropped() + 1,
            ({
                let stamped = LogEntry { seq: old(self).next(), ..entry };
                if old(self).entries().len() == old(self).capacity() {
                    &&& final(self).entries() == old(self).entries().drop_first().push(stamped)
                    &&& final(self).dropped() == (if old(self).dropped() == u64::MAX {
                        u64::MAX
                    } else {
                        (old(self).dropped() + 1) as u64
                    })
                } else {
                    &&& final(self).entries() == old(self).entries().push(stamped)
                    &&& final(self).dropped() == old(self).dropped()
                }
            }),
    {
        proof { use_type_invariant(&*self); }
        let mut entry = entry;
        let seq = self.next_seq;
        entry.seq = seq;
        let capacity = self.capacity;
        let mut entries: VecDeque<LogEntry> = VecDeque::new();
        std::mem::swap(&mut entries, &mut self.entries);
        let ghost before = entries@;
        self.next_seq = seq.wrapping_add(1);
        if entries.len() == capacity {
            entries.pop_front();
            self.total_dropped = self.total_dropped.saturating_add(1);
        }
        let ghost mid = entries@;
        entries.push_back(entry);
        proof {
            let e = entries@;
            assert forall|i: int| 0 <= i < e.len() - 1 implies #[trigger] e[i + 1].seq == seq_succ(e[i].seq) by {
                if i + 1 < mid.len() {
                    if before.len() == capacity {
                        assert(mid[i] == before[i + 1]);
                        assert(mid[i + 1] == before[i + 2]);
                    }
                } else {
                    assert(i == mid.len() - 1);
                    if before.len() == capacity {
                        assert(mid[i] == before[i + 1]);
                        assert(before.last() == before[i + 1]);
                    } else {
                        assert(mid[i] == before.last());
                    }
                }
            }
            assert(seq.wrapping_add(1) == seq_succ(seq));
        }
        self.entries = entries;
    }

    /// Current number of retained entries.
    pub fn len(&self) -> (n: usize)
        ensures
            n == self.entries().len(),
            n <= self.capacity(),
    {
        proof { use_type_invariant(self); }
        self.entries.len()
    }

    /// Whether no entry is retained.
    pub fn is_empty(&self) -> (b: bool)
        ensures
            b == (self.entries().len() == 0),
    {
        self.entries.len() == 0
    }

    /// Total number of entries dropped because of the capacity.
    pub fn total_dropped(&self) -> (d: u64)
        ensures
            d == self.dropped(),
    {
        self.total_dropped
    }

    /// The sequence number the next pushed entry will get.
    pub fn next_seq(&self) -> (s: u64)
        ensures
            s == self.next(),
    {
        self.next_seq
    }

    /// The next sequence number and a copy of the retained entries.
    pub fn snapshot(&self) -> (r: (u64, Vec<LogEntry>))
        ensures
            r.0 == self.next(),
            r.1@ == self.entries(),
            consecutive(r.1@, r.0),
    {
        proof { use_type_invariant(self); }
        let mut v: Vec<LogEntry> = Vec::new();
        let mut i: usize = 0;
        while i < self.entries.len()
            invariant
                i <= self.entries@.len(),
                v@ == self.entries@.take(i as int),
            decreases self.entries@.len() - i,
        {
            v.push(self.entries[i].clone());
            assert(self.entries@.take(i as int + 1) =~= self.entries@.take(i as int).push(self.entries@[i as int]));
            i = i + 1;
        }
        assert(self.entries@.take(i as int) =~= self.entries@);
        (self.next_seq, v)
    }

    /// Copies of the retained entries with a sequence number strictly above
    /// `after_seq`, oldest first.
    pub fn iter_after(&self, after_seq: u64) -> (v: Vec<LogEntry>)
        ensures
            v@ == entries_after(self.entries(), after_seq),
    {
        let mut v: Vec<LogEntry> = Vec::new();
        let mut i: usize = 0;
        while i < self.entries.len()
            invariant
                i <= self.entries@.len(),
                v@ == entries_after(self.entries@.take(i as int), after_seq),
            decreases self.entries@.len() - i,
        {
            proof {
                let s = self.entries@;
                assert(s.take(i as int + 1).drop_last() =~= s.take(i as int));
                reveal(Seq::filter);
            }
            if self.entries[i].seq > after_seq {
                v.push(self.entries[i].clone());
            }
            i = i + 1;
        }
        assert(self.entries@.take(i as int) =~= self.entries@);
        v
    }
}

/// Without wrap-around, consecutive sequence numbers count up from the first entry.
proof fn lemma_seq_offsets(entries: Seq<LogEntry>, next: u64, i: int)
    requires
        consecutive(entries, next),
        entries.len() > 0,
        entries[0].seq as int + entries.len() <= u64::MAX as int + 1,
        0 <= i < entries.len(),
    ensures
        entries[i].seq as int == entries[0].seq as int + i,
    decreases i,
{
    if i > 0 {
        lemma_seq_offsets(entries, next, i - 1);
        let j = i - 1;
        assert(entries[j + 1].seq == seq_succ(entries[j].seq));
    }
}

/// A tail that resumes after the last sequence number it has seen gets
/// exactly the retained entries that follow that one, in order: when the
/// entry at position `k` was the last one seen, `iter_after` of its
/// sequence number yields the entries after position `k` (as long as the
/// retained sequence numbers have not wrapped around).
pub proof fn lemma_resume_after_seen(entries: Seq<LogEntry>, next: u64, k: int)
    requires
        consecutive(entries, next),
        0 <= k < entries.len(),
        entries[0].seq as int + entries.len() <= u64::MAX as int + 1,
    ensures
        entries_after(entries, entries[k].seq) == entries.subrange(k + 1, entries.len() as int),
    decreases entries.len(),
{
    let s = entries[k].seq;
    if k == entries.len() - 1 {
        lemma_seq_offsets(entries, next, k);
        lemma_none_after(entries, next, s);
        assert(entries.subrange(k + 1, entries.len() as int) =~= Seq::<LogEntry>::empty());
    } else {
        let prefix = entries.drop_last();
        let last = entries.last();
        lemma_consecutive_prefix(entries, next);
        assert(prefix[k] == entries[k]);
        lemma_resume_after_seen(prefix, last.seq, k);
        lemma_seq_offsets(entries, next, entries.len() - 1);
        lemma_seq_offsets(entries, next, k);
        assert(last.seq > s);
        assert(entries =~= prefix.push(last));
        reveal(Seq::filter);
        assert(entries_after(entries, s) == entries_after(prefix, s).push(last)) by {
            assert(entries.drop_last() =~= prefix);
        }
        assert(entries.subrange(k + 1, entries.len() as int) =~= prefix.subrange(k + 1, prefix.len() as int).push(
            last,
        ));
    }
}

/// Dropping the last entry keeps the numbers consecutive, now ending just
/// before the dropped entry's number.
proof fn lemma_consecutive_prefix(entries: Seq<LogEntry>, next: u64)
    requires
        consecutive(entries, next),
        entries.len() > 0,
    ensures
        consecutive(entries.drop_last(), entries.last().seq),
{
    let p = entries.drop_last();
    assert forall|i: int| 0 <= i < p.len() - 1 implies #[trigger] p[i + 1].seq == seq_succ(p[i].seq) by {
        assert(p[i + 1] == entries[i + 1]);
        assert(p[i] == entries[i]);
    }
    if p.len() > 0 {
        let j = p.len() - 1;
        assert(entries[j + 1].seq == seq_succ(entries[j].seq));
        assert(entries[j + 1] == entries.last());
        assert(p.last() == entries[j]);
    }
}

/// No retained entry comes after the last one when nothing wrapped around.
proof fn lemma_none_after(entries: Seq<LogEntry>, next: u64, s: u64)
    requires
        consecutive(entries, next),
        entries.len() > 0,
        entries[0].seq as int + entries.len() <= u64::MAX as int + 1,
        s == entries.last().seq,
    ensures
        entries_after(entries, s) == Seq::<LogEntry>::empty(),
{
    assert forall|i: int| 0 <= i < entries.len() implies (#[trigger] entries[i]).seq <= s by {
        lemma_seq_offsets(entries, next, i);
        lemma_seq_offsets(entries, next, entries.len() - 1);
    }
    lemma_filter_none(entries, s);
}

/// Filtering keeps nothing when no element passes.
proof fn lemma_filter_none(entries: Seq<LogEntry>, s: u64)
    requires
        forall|i: int| 0 <= i < entries.len() ==> (#[trigger] entries[i]).seq <= s,
    ensures
        entries_after(entries, s) == Seq::<LogEntry>::empty(),
    decreases entries.len(),
{
    reveal(Seq::filter);
    if entries.len() > 0 {
        let p = entries.drop_last();
        assert forall|i: int| 0 <= i < p.len() implies (#[trigger] p[i]).seq <= s by {
            assert(p[i] == entries[i]);
        }
        lemma_filter_none(p, s);
    }
}

} // verus!
