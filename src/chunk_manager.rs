use std::collections::VecDeque;

use vstd::prelude::*;

use crate::world_format::ChunkPos;

verus! {

/// Batches the vanilla client accepts without acknowledging before it pauses.
pub const NOTCHIAN_BATCHES_WITHOUT_ACK_UNTIL_PAUSE: u8 = 10;

/// How many chunks are sent per tick until the client asks for another rate.
pub const DEFAULT_CHUNKS_PER_TICK: usize = 16;

/// Where chunk sending stands with respect to the client's acknowledgements.
#[derive(Debug, Clone, Copy, PartialEq, Eq, Structural)]
pub enum BatchState {
    /// Nothing sent yet.
    Initial,
    /// The first batch was sent; no acknowledgement yet.
    Waiting,
    /// Batches sent since the last acknowledgement.
    Count(u8),
}

/// The state after a batch goes out: the first batch starts the wait for an acknowledgement,
/// later ones are counted (the count stops at 255).
pub open spec fn state_after_batch(s: BatchState) -> BatchState {
    match s {
        BatchState::Initial => BatchState::Waiting,
        BatchState::Waiting => BatchState::Waiting,
        BatchState::Count(n) => BatchState::Count(if n < 255 { (n + 1) as u8 } else { 255 }),
    }
}

/// Whether a batch may go out in state `s`.
pub open spec fn may_send(s: BatchState) -> bool {
    match s {
        BatchState::Initial => true,
        BatchState::Waiting => false,
        BatchState::Count(n) => n < NOTCHIAN_BATCHES_WITHOUT_ACK_UNTIL_PAUSE,
    }
}

/// A player's queues of chunks and entity chunks waiting to be sent, and the sending pace.
pub struct ChunkManager<C, E> {
    pub chunks_per_tick: usize,
    pub chunk_queue: VecDeque<(ChunkPos, C)>,
    pub entity_chunk_queue: VecDeque<(ChunkPos, E)>,
    pub batches_sent_since_ack: BatchState,
}

/// The second components of a sequence of pairs.
pub open spec fn seconds<A, B>(s: Seq<(A, B)>) -> Seq<B> {
    s.map_values(|p: (A, B)| p.1)
}

impl<C, E> ChunkManager<C, E> {
    /// How many chunks the next batch takes: all that wait, at most `chunks_per_tick`.
    pub open spec fn next_batch_len(&self) -> nat {
        if self.chunk_queue@.len() < self.chunks_per_tick {
            self.chunk_queue@.len()
        } else {
            self.chunks_per_tick as nat
        }
    }

    pub fn new(chunks_per_tick: usize) -> (r: Self)
        ensures
            r.chunks_per_tick == chunks_per_tick,
            r.chunk_queue@.len() == 0,
            r.entity_chunk_queue@.len() == 0,
            r.batches_sent_since_ack == BatchState::Initial,
    {
        ChunkManager {
            chunks_per_tick,
            chunk_queue: VecDeque::new(),
            entity_chunk_queue: VecDeque::new(),
            batches_sent_since_ack: BatchState::Initial,
        }
    }

    /// The client acknowledged a batch and asks for `chunks_per_tick` chunks per tick (its
    /// desired rate rounded up).
    pub fn handle_acknowledge(&mut self, chunks_per_tick: usize)
        ensures
            final(self).batches_sent_since_ack == BatchState::Count(0),
            final(self).chunks_per_tick == chunks_per_tick,
            final(self).chunk_queue@ == old(self).chunk_queue@,
            final(self).entity_chunk_queue@ == old(self).entity_chunk_queue@,
    {
        self.batches_sent_since_ack = BatchState::Count(0);
        self.chunks_per_tick = chunks_per_tick;
    }

    pub fn push_chunk(&mut self, position: ChunkPos, chunk: C)
        ensures
            final(self).chunk_queue@ == old(self).chunk_queue@.push((position, chunk)),
            final(self).entity_chunk_queue@ == old(self).entity_chunk_queue@,
            final(self).chunks_per_tick == old(self).chunks_per_tick,
            final(self).batches_sent_since_ack == old(self).batches_sent_since_ack,
    {
        self.chunk_queue.push_back((position, chunk));
    }

    pub fn push_entity(&mut self, position: ChunkPos, chunk: E)
        ensures
            final(self).entity_chunk_queue@ == old(self).entity_chunk_queue@.push((position, chunk)),
            final(self).chunk_queue@ == old(self).chunk_queue@,
            final(self).chunks_per_tick == old(self).chunks_per_tick,
            final(self).batches_sent_since_ack == old(self).batches_sent_since_ack,
    {
        self.entity_chunk_queue.push_back((position, chunk));
    }

    /// Whether a batch of chunks may go out now: some chunk waits, and the client has not
    /// fallen too far behind in acknowledging.
    pub fn can_send_chunk(&self) -> (r: bool)
        ensures
            r == (may_send(self.batches_sent_since_ack) && self.chunk_queue@.len() > 0),
    {
        let state_available = match self.batches_sent_since_ack {
            BatchState::Count(count) => count < NOTCHIAN_BATCHES_WITHOUT_ACK_UNTIL_PAUSE,
            BatchState::Initial => true,
            BatchState::Waiting => false,
        };
        state_available && self.chunk_queue.len() > 0
    }

    fn advance_batch_state(&mut self)
        ensures
            final(self).batches_sent_since_ack == state_after_batch(old(self).batches_sent_since_ack),
            final(self).chunk_queue@ == old(self).chunk_queue@,
            final(self).entity_chunk_queue@ == old(self).entity_chunk_queue@,
            final(self).chunks_per_tick == old(self).chunks_per_tick,
    {
        self.batches_sent_since_ack = match self.batches_sent_since_ack {
            BatchState::Count(count) => BatchState::Count(
                if count < 255 {
                    count + 1
                } else {
                    255
                },
            ),
            BatchState::Initial => BatchState::Waiting,
            BatchState::Waiting => BatchState::Waiting,
        };
    }

    /// Takes the next batch: the oldest chunks, at most `chunks_per_tick` of them.
    pub fn next_chunk(&mut self) -> (r: Vec<C>)
        ensures
            r@ == seconds(old(self).chunk_queue@.subrange(0, old(self).next_batch_len() as int)),
            final(self).chunk_queue@ == old(self).chunk_queue@.subrange(
                old(self).next_batch_len() as int,
                old(self).chunk_queue@.len() as int,
            ),
            final(self).batches_sent_since_ack == state_after_batch(old(self).batches_sent_since_ack),
            final(self).entity_chunk_queue@ == old(self).entity_chunk_queue@,
            final(self).chunks_per_tick == old(self).chunks_per_tick,
    {
        let ghost q = self.chunk_queue@;
        let len = self.chunk_queue.len();
        let n = if len < self.chunks_per_tick {
            len
        } else {
            self.chunks_per_tick
        };
        let mut chunks: Vec<C> = Vec::new();
        let mut k: usize = 0;
        while k < n
            invariant
                n <= q.len(),
                k <= n,
                self.chunk_queue@ == q.subrange(k as int, q.len() as int),
                chunks@ == seconds(q.subrange(0, k as int)),
                self.entity_chunk_queue@ == old(self).entity_chunk_queue@,
                self.chunks_per_tick == old(self).chunks_per_tick,
                self.batches_sent_since_ack == old(self).batches_sent_since_ack,
                q == old(self).chunk_queue@,
            decreases n - k,
        {
            let entry = self.chunk_queue.pop_front();
            match entry {
                Some((_, chunk)) => {
                    chunks.push(chunk);
                },
                None => {},
            }
            k += 1;
            assert(self.chunk_queue@ =~= q.subrange(k as int, q.len() as int));
            assert(chunks@ =~= seconds(q.subrange(0, k as int)));
        }
        self.advance_batch_state();
        chunks
    }

    /// Takes the next batch of entity chunks: the oldest, at most `chunks_per_tick` of them.
    pub fn next_entity(&mut self) -> (r: Vec<E>)
        ensures
            ({
                let n = if old(self).entity_chunk_queue@.len() < old(self).chunks_per_tick {
                    old(self).entity_chunk_queue@.len()
                } else {
                    old(self).chunks_per_tick as nat
                };
                &&& r@ == seconds(old(self).entity_chunk_queue@.subrange(0, n as int))
                &&& final(self).entity_chunk_queue@ == old(self).entity_chunk_queue@.subrange(
                    n as int,
                    old(self).entity_chunk_queue@.len() as int,
                )
            }),
            final(self).batches_sent_since_ack == state_after_batch(old(self).batches_sent_since_ack),
            final(self).chunk_queue@ == old(self).chunk_queue@,
            final(self).chunks_per_tick == old(self).chunks_per_tick,
    {
        let ghost q = self.entity_chunk_queue@;
        let len = self.entity_chunk_queue.len();
        let n = if len < self.chunks_per_tick {
            len
        } else {
            self.chunks_per_tick
        };
        let mut chunks: Vec<E> = Vec::new();
        let mut k: usize = 0;
        while k < n
            invariant
                n <= q.len(),
                k <= n,
                self.entity_chunk_queue@ == q.subrange(k as int, q.len() as int),
                chunks@ == seconds(q.subrange(0, k as int)),
                self.chunk_queue@ == old(self).chunk_queue@,
                self.chunks_per_tick == old(self).chunks_per_tick,
                self.batches_sent_since_ack == old(self).batches_sent_since_ack,
                q == old(self).entity_chunk_queue@,
            decreases n - k,
        {
            let entry = self.entity_chunk_queue.pop_front();
            match entry {
                Some((_, chunk)) => {
                    chunks.push(chunk);
                },
                None => {},
            }
            k += 1;
            assert(self.entity_chunk_queue@ =~= q.subrange(k as int, q.len() as int));
            assert(chunks@ =~= seconds(q.subrange(0, k as int)));
        }
        self.advance_batch_state();
        chunks
    }

    /// Whether a chunk at `pos` waits in the queue.
    pub fn is_chunk_pending(&self, pos: &ChunkPos) -> (r: bool)
        ensures
            r == exists|i: int| 0 <= i < self.chunk_queue@.len() && (#[trigger] self.chunk_queue@[i]).0 == *pos,
    {
        let mut i: usize = 0;
        while i < self.chunk_queue.len()
            invariant
                i <= self.chunk_queue@.len(),
                forall|k: int| 0 <= k < i ==> (#[trigger] self.chunk_queue@[k]).0 != *pos,
            decreases self.chunk_queue@.len() - i,
        {
            if self.chunk_queue[i].0 == *pos {
                return true;
            }
            i += 1;
        }
        false
    }
}

} // verus!
