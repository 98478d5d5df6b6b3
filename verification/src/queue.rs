//! Bounded per-session output queue with a drop-on-full policy.
//!
//! The reader worker enqueues chunks of at most `MAX_CHUNK_BYTES` bytes; when
//! the queue already holds `QUEUE_CAPACITY` chunks a new chunk is dropped
//! whole (never split, never reordered) and the drop counter grows.  Pull
//! consumers dequeue chunks in arrival order.

use vstd::prelude::*;

verus! {

/// Most chunks the queue holds at once.
pub const QUEUE_CAPACITY: usize = 100;

/// Most bytes in one queued chunk.
pub const MAX_CHUNK_BYTES: usize = 4096;

/// Most bytes one drain call hands back.
pub const MAX_DRAIN_BYTES: usize = 65536;

/// In-order bounded queue of output chunks, counting dropped chunks.
pub struct OutputQueue {
    chunks: Vec<Vec<u8>>,
    dropped: u64,
}

/// How many leading chunks one drain call takes: chunks are taken while the
/// remaining byte budget is positive, so the last taken chunk may finish the
/// budget off.
pub open spec fn drain_count(chunks: Seq<Seq<u8>>, budget: int) -> nat
    decreases chunks.len(),
{
    if chunks.len() == 0 || budget <= 0 {
        0
    } else {
        1 + drain_count(chunks.drop_first(), budget - chunks[0].len())
    }
}

impl OutputQueue {
    /// The queued chunks, oldest first.
    pub closed spec fn view_chunks(&self) -> Seq<Seq<u8>> {
        self.chunks@.map_values(|c: Vec<u8>| c@)
    }

    /// How many chunks were dropped since creation.
    pub closed spec fn spec_dropped(&self) -> u64 {
        self.dropped
    }

    /// The queue never holds more than `QUEUE_CAPACITY` chunks and no chunk
    /// exceeds `MAX_CHUNK_BYTES` bytes.
    pub closed spec fn wf(&self) -> bool {
        &&& self.chunks@.len() <= QUEUE_CAPACITY
        &&& forall|i: int|
            0 <= i < self.chunks@.len() ==> (#[trigger] self.chunks@[i])@.len() <= MAX_CHUNK_BYTES
    }

    /// A fresh empty queue with a zero drop counter.
    pub fn new() -> (q: OutputQueue)
        ensures
            q.wf(),
            q.view_chunks() =~= Seq::<Seq<u8>>::empty(),
            q.spec_dropped() == 0,
    {
        OutputQueue { chunks: Vec::new(), dropped: 0 }
    }

    /// How many chunks are queued.
    pub fn len(&self) -> (r: usize)
        ensures
            r == self.view_chunks().len(),
    {
        self.chunks.len()
    }

    /// The drop counter.
    pub fn dropped_count(&self) -> (r: u64)
        ensures
            r == self.spec_dropped(),
    {
        self.dropped
    }

    /// Enqueue one chunk, or drop it when the queue is full.  The drop
    /// counter never decreases and grows exactly on a drop.
    pub fn push_chunk(&mut self, data: Vec<u8>) -> (accepted: bool)
        requires
            old(self).wf(),
            data@.len() <= MAX_CHUNK_BYTES,
        ensures
            final(self).wf(),
            accepted == (old(self).view_chunks().len() < QUEUE_CAPACITY),
            accepted ==> final(self).view_chunks() =~= old(self).view_chunks().push(data@),
            accepted ==> final(self).spec_dropped() == old(self).spec_dropped(),
            !accepted ==> final(self).view_chunks() =~= old(self).view_chunks(),
            !accepted ==> final(self).spec_dropped() == if old(self).spec_dropped() == u64::MAX {
                old(self).spec_dropped()
            } else {
                (old(self).spec_dropped() + 1) as u64
            },
            final(self).spec_dropped() >= old(self).spec_dropped(),
    {
        if self.chunks.len() < QUEUE_CAPACITY {
            self.chunks.push(data);
            true
        } else {
            if self.dropped < u64::MAX {
                self.dropped = self.dropped + 1;
            }
            false
        }
    }

    /// Dequeue the oldest chunk, if any.
    pub fn pop_chunk(&mut self) -> (r: Option<Vec<u8>>)
        requires
            old(self).wf(),
        ensures
            final(self).wf(),
            final(self).spec_dropped() == old(self).spec_dropped(),
            old(self).view_chunks().len() == 0 ==> r is None && final(self).view_chunks()
                =~= old(self).view_chunks(),
            old(self).view_chunks().len() > 0 ==> ({
                &&& r matches Some(c)
                &&& c@ == old(self).view_chunks()[0]
                &&& final(self).view_chunks() =~= old(self).view_chunks().drop_first()
            }),
    {
        if self.chunks.len() == 0 {
            None
        } else {
            Some(self.chunks.remove(0))
        }
    }

    /// Dequeue leading chunks while fewer than `MAX_DRAIN_BYTES` bytes have
    /// been taken, concatenating them in order; never waits.
    pub fn drain_chunks(&mut self) -> (out: Vec<u8>)
        requires
            old(self).wf(),
        ensures
            final(self).wf(),
            final(self).spec_dropped() == old(self).spec_dropped(),
            ({
                let k = drain_count(old(self).view_chunks(), MAX_DRAIN_BYTES as int) as int;
                &&& out@ == old(self).view_chunks().take(k).flatten()
                &&& final(self).view_chunks() =~= old(self).view_chunks().skip(k)
            }),
    {
        let ghost orig = old(self).view_chunks();
        let ghost full = drain_count(orig, MAX_DRAIN_BYTES as int) as int;
        let mut out: Vec<u8> = Vec::new();
        let ghost mut taken: int = 0;
        proof {
            assert(orig.take(0).flatten() =~= Seq::<u8>::empty());
            assert(orig.skip(0) =~= orig);
        }
        while out.len() < MAX_DRAIN_BYTES && self.chunks.len() > 0
            invariant
                self.wf(),
                self.spec_dropped() == old(self).spec_dropped(),
                0 <= taken <= orig.len(),
                out@ == orig.take(taken).flatten(),
                self.view_chunks() =~= orig.skip(taken),
                drain_count(orig, MAX_DRAIN_BYTES as int) == taken + drain_count(
                    self.view_chunks(),
                    MAX_DRAIN_BYTES - out@.len(),
                ),
                out@.len() < MAX_DRAIN_BYTES || drain_count(
                    self.view_chunks(),
                    MAX_DRAIN_BYTES - out@.len(),
                ) == 0,
            decreases self.chunks@.len(),
        {
            let chunk = self.chunks.remove(0);
            proof {
                let pre = orig.skip(taken);
                assert(pre.len() > 0);
                assert(pre[0] == orig[taken]);
                assert(drain_count(pre, MAX_DRAIN_BYTES - out@.len()) == 1 + drain_count(
                    pre.drop_first(),
                    MAX_DRAIN_BYTES - out@.len() - pre[0].len(),
                ));
                assert(orig.take(taken + 1) =~= orig.take(taken).push(orig[taken]));
                orig.take(taken).lemma_flatten_push(orig[taken]);
                assert(orig.skip(taken + 1) =~= pre.drop_first());
            }
            out.extend_from_slice(chunk.as_slice());
            proof {
                taken = taken + 1;
                assert(out@ == orig.take(taken).flatten());
            }
        }
        proof {
            if out@.len() < MAX_DRAIN_BYTES {
                assert(self.view_chunks().len() == 0);
                assert(drain_count(self.view_chunks(), MAX_DRAIN_BYTES - out@.len()) == 0);
            }
            assert(taken == full);
        }
        out
    }
}

/// The queue length is bounded by its capacity in every well-formed state.
pub proof fn lemma_queue_bounded(q: &OutputQueue)
    requires
        q.wf(),
    ensures
        q.view_chunks().len() <= QUEUE_CAPACITY,
{
}

} // verus!
