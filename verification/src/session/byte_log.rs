//! The bytes of a pane that are kept for replay: a bounded ring in memory, and
//! the arithmetic of the log file behind it.

use std::collections::VecDeque;

use vstd::prelude::*;

use crate::seqs::keep_last;

verus! {

/// Chunks that may wait for the log file before further ones are dropped.
pub const DISK_CHANNEL_CAP: usize = 64;

/// The newest bytes of a pane, at most `ring_capacity` of them, and the count
/// of all that ever came.
#[derive(Debug, PartialEq, Eq)]
pub struct ByteLog {
    ring: VecDeque<u8>,
    ring_capacity: usize,
    total_bytes_written: u64,
}

/// A byte log as a mathematical value.
pub ghost struct LogModel {
    pub ring: Seq<u8>,
    pub capacity: nat,
    pub total: u64,
}

impl View for ByteLog {
    type V = LogModel;

    closed spec fn view(&self) -> LogModel {
        LogModel {
            ring: self.ring@,
            capacity: self.ring_capacity as nat,
            total: self.total_bytes_written,
        }
    }
}

/// Addition that stops at the largest `u64`.
pub open spec fn saturating(a: int, b: int) -> u64 {
    if a + b > u64::MAX {
        u64::MAX
    } else {
        (a + b) as u64
    }
}

impl LogModel {
    /// The ring never holds more than its capacity, nor more than ever came. The
    /// count stops at the largest `u64`, which no ring exceeds.
    pub open spec fn ok(self) -> bool {
        &&& self.ring.len() <= self.capacity <= u64::MAX
        &&& self.ring.len() <= self.total
    }

    /// The log after `data` has come: the newest bytes stay.
    pub open spec fn appended(self, data: Seq<u8>) -> LogModel {
        LogModel {
            ring: keep_last(self.ring + data, self.capacity),
            total: saturating(self.total as int, data.len() as int),
            ..self
        }
    }

    /// The log after several chunks have come, one after the other.
    pub open spec fn appended_all(self, chunks: Seq<Seq<u8>>) -> LogModel
        decreases chunks.len(),
    {
        if chunks.len() == 0 {
            self
        } else {
            self.appended_all(chunks.drop_last()).appended(chunks.last())
        }
    }
}

/// How many bytes of an existing log file of `size` bytes go into a fresh ring.
pub open spec fn preload_len(size: nat, ring_capacity: nat) -> nat {
    if size <= ring_capacity {
        size
    } else {
        ring_capacity
    }
}

/// How many bytes to read from the end of an existing log file.
pub fn preload_size(size: u64, ring_capacity: usize) -> (n: usize)
    ensures
        n == preload_len(size as nat, ring_capacity as nat),
{
    if size <= ring_capacity as u64 {
        size as usize
    } else {
        ring_capacity
    }
}

impl ByteLog {
    /// The log of a pane whose log file holds `size` bytes, `tail` being the
    /// last of them, as many as `preload_size` asks for. A pane without a log
    /// file has size zero.
    pub fn new(ring_capacity: usize, size: u64, tail: &[u8]) -> (log: ByteLog)
        requires
            tail@.len() == preload_len(size as nat, ring_capacity as nat),
        ensures
            log@ == (LogModel { ring: tail@, capacity: ring_capacity as nat, total: size }),
            log@.ok(),
    {
        let mut ring: VecDeque<u8> = VecDeque::new();
        let mut i: usize = 0;
        while i < tail.len()
            invariant
                i <= tail@.len(),
                ring@ == tail@.take(i as int),
            decreases tail@.len() - i,
        {
            ring.push_back(tail[i]);
            i = i + 1;
            assert(tail@.take(i as int) =~= tail@.take(i as int - 1).push(tail@[i as int - 1]));
        }
        assert(tail@.take(tail@.len() as int) =~= tail@);
        ByteLog { ring, ring_capacity, total_bytes_written: size }
    }

    /// Appends bytes; the oldest leave where the ring is full.
    pub fn append(&mut self, data: &[u8])
        requires
            old(self)@.ok(),
        ensures
            final(self)@ == old(self)@.appended(data@),
            final(self)@.ok(),
    {
        let ghost before = self.ring@;
        let ghost cap = self.ring_capacity as int;
        let mut i: usize = 0;
        while i < data.len()
            invariant
                i <= data@.len(),
                self.ring@ == before + data@.take(i as int),
                self.ring_capacity == cap,
                self.total_bytes_written == old(self).total_bytes_written,
            decreases data@.len() - i,
        {
            self.ring.push_back(data[i]);
            i = i + 1;
            assert(self.ring@ =~= before + data@.take(i as int));
        }
        assert(data@.take(data@.len() as int) =~= data@);
        let ghost all = before + data@;
        let ghost mut gone: int = 0;
        while self.ring.len() > self.ring_capacity
            invariant
                0 <= gone <= all.len(),
                self.ring@ == all.subrange(gone, all.len() as int),
                self.ring_capacity == cap,
                gone > 0 ==> self.ring@.len() >= cap,
                self.total_bytes_written == old(self).total_bytes_written,
            decreases self.ring@.len(),
        {
            let _ = self.ring.pop_front();
            proof {
                gone = gone + 1;
            }
            assert(self.ring@ =~= all.subrange(gone, all.len() as int));
        }
        assert(self.ring@ =~= keep_last(all, cap as nat));
        self.total_bytes_written = self.total_bytes_written.saturating_add(data.len() as u64);
    }

    /// A copy of the ring and the count of all bytes that ever came, which is no
    /// less than the length of the copy.
    pub fn ring_snapshot(&self) -> (snapshot: (Vec<u8>, u64))
        ensures
            snapshot.0@ == self@.ring,
            snapshot.1 == self@.total,
            self@.ok() ==> snapshot.0@.len() <= snapshot.1,
    {
        let mut bytes: Vec<u8> = Vec::new();
        let mut i: usize = 0;
        while i < self.ring.len()
            invariant
                i <= self.ring@.len(),
                bytes@ == self.ring@.take(i as int),
            decreases self.ring@.len() - i,
        {
            bytes.push(self.ring[i]);
            i = i + 1;
            assert(self.ring@.take(i as int) =~= self.ring@.take(i as int - 1).push(
                self.ring@[i as int - 1],
            ));
        }
        assert(self.ring@.take(self.ring@.len() as int) =~= self.ring@);
        (bytes, self.total_bytes_written)
    }
}

/// The chunks one after the other.
pub open spec fn joined(chunks: Seq<Seq<u8>>) -> Seq<u8>
    decreases chunks.len(),
{
    if chunks.len() == 0 {
        Seq::empty()
    } else {
        joined(chunks.drop_last()) + chunks.last()
    }
}

proof fn lemma_keep_last_twice(a: Seq<u8>, b: Seq<u8>, n: nat)
    ensures
        keep_last(keep_last(a, n) + b, n) == keep_last(a + b, n),
{
    assert(keep_last(keep_last(a, n) + b, n) =~= keep_last(a + b, n));
}

/// Replay and live output fit together without a gap or an overlap: whatever
/// chunks come after a snapshot, the ring then holds the newest bytes of the
/// snapshot followed by those chunks, and the count has grown by their length.
pub proof fn law_snapshot_then_live(log: LogModel, chunks: Seq<Seq<u8>>)
    requires
        log.ok(),
    ensures
        log.appended_all(chunks).ring == keep_last(log.ring + joined(chunks), log.capacity),
        log.appended_all(chunks).total == saturating(
            log.total as int,
            joined(chunks).len() as int,
        ),
        log.appended_all(chunks).capacity == log.capacity,
        log.appended_all(chunks).ok(),
    decreases chunks.len(),
{
    if chunks.len() == 0 {
        assert(log.ring + joined(chunks) =~= log.ring);
    } else {
        law_snapshot_then_live(log, chunks.drop_last());
        let before = joined(chunks.drop_last());
        lemma_keep_last_twice(log.ring + before, chunks.last(), log.capacity);
        assert((log.ring + before) + chunks.last() =~= log.ring + (before + chunks.last()));
    }
}

/// A chunk by which the ring does not overflow is followed by a snapshot of
/// everything that came.
pub proof fn law_ring_holds_all_below_capacity(log: LogModel, data: Seq<u8>)
    requires
        log.ok(),
        log.ring.len() + data.len() <= log.capacity,
    ensures
        log.appended(data).ring == log.ring + data,
{
}

// ---------------------------------------------------------------------------
// The log file
// ---------------------------------------------------------------------------
/// What is known of a log file while it is written: its size so far and the
/// size at which it is cut back.
#[derive(Clone, Copy, Debug, PartialEq, Eq, Structural)]
pub struct DiskAppender {
    pub file_size: u64,
    pub max_disk_bytes: u64,
}

/// Which part of a log file stays when it is cut back.
#[derive(Clone, Copy, Debug, PartialEq, Eq, Structural)]
pub struct Rotation {
    pub start_offset: u64,
    pub to_keep: u64,
}

impl DiskAppender {
    /// Counts a written chunk. Returns whether the file is now due to be cut
    /// back.
    pub fn written(&mut self, len: u64) -> (due: bool)
        ensures
            final(self).file_size == saturating(old(self).file_size as int, len as int),
            final(self).max_disk_bytes == old(self).max_disk_bytes,
            due == (final(self).file_size >= final(self).max_disk_bytes),
    {
        self.file_size = self.file_size.saturating_add(len);
        self.file_size >= self.max_disk_bytes
    }

    /// The part of a file of `current_size` bytes that stays: its end, at most
    /// half of the allowed size.
    pub fn rotation(&self, current_size: u64) -> (r: Rotation)
        ensures
            r.start_offset + r.to_keep == current_size,
            r.to_keep == if current_size <= self.max_disk_bytes / 2 {
                current_size
            } else {
                self.max_disk_bytes / 2
            },
    {
        let keep: u64 = self.max_disk_bytes / 2;
        let to_keep: u64 = if current_size < keep {
            current_size
        } else {
            keep
        };
        Rotation { start_offset: current_size - to_keep, to_keep }
    }

    /// Counts a cut that went well.
    pub fn rotated(&mut self, r: Rotation)
        ensures
            final(self).file_size == r.to_keep,
            final(self).max_disk_bytes == old(self).max_disk_bytes,
    {
        self.file_size = r.to_keep;
    }
}

/// The size of a log file after a chunk was written and the file cut back where
/// that was due.
pub open spec fn size_after(size: u64, len: u64, max: u64) -> u64 {
    let written = saturating(size as int, len as int);
    if written >= max {
        if written <= max / 2 {
            written
        } else {
            max / 2
        }
    } else {
        written
    }
}

/// The size of a log file after several chunks.
pub open spec fn size_after_all(size: u64, lens: Seq<u64>, max: u64) -> u64
    decreases lens.len(),
{
    if lens.len() == 0 {
        size
    } else {
        size_after(size_after_all(size, lens.drop_last(), max), lens.last(), max)
    }
}

/// However much is written, a log file is below its allowed size after every
/// chunk, and beyond it by less than that chunk before it is cut back.
pub proof fn law_log_file_stays_bounded(size: u64, lens: Seq<u64>, max: u64, next: u64)
    requires
        size < max,
        next > 0,
    ensures
        size_after_all(size, lens, max) < max,
        saturating(size_after_all(size, lens, max) as int, next as int) < max + next,
    decreases lens.len(),
{
    if lens.len() > 0 {
        law_log_file_stays_bounded(size, lens.drop_last(), max, next);
    }
}

} // verus!
