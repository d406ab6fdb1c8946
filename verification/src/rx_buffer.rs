//! Receive buffer protocol: assembles the byte chunks an interrupt handler
//! pulls off the serial transport into complete messages for the main loop.
//!
//! The producer side (`accept_chunk`) runs in interrupt context, the
//! consumer side (`take_message`) in the main loop; both must hold the one
//! global critical section while they touch the state.  That discipline is
//! the bus shell's duty and is modeled here by exclusive ownership: every
//! access goes through `&mut self`.

use vstd::prelude::*;

verus! {

/// End-of-message marker in the inbound byte stream.
pub const SENTINEL: u8 = 0;

/// `buf` with `data` written over its bytes starting at `at`.
pub open spec fn spliced(buf: Seq<u8>, at: int, data: Seq<u8>) -> Seq<u8> {
    buf.take(at) + data + buf.skip(at + data.len())
}

/// The shared producer/consumer state: a fixed-capacity byte buffer, the
/// producer's write cursor, and the committed length of a fully assembled
/// message (0 while none is pending).  A drop counter records chunks the
/// back-pressure policy rejected.
pub struct ReceiveState {
    buffer: Vec<u8>,
    write_idx: usize,
    buff_len: usize,
    dropped: usize,
}

impl ReceiveState {
    /// Fixed buffer capacity `C`.
    pub closed spec fn capacity(&self) -> nat {
        self.buffer@.len()
    }

    /// Current contents of the shared buffer.
    pub closed spec fn buffer_view(&self) -> Seq<u8> {
        self.buffer@
    }

    /// The producer's write cursor: where the next continuation chunk lands.
    pub closed spec fn cursor(&self) -> nat {
        self.write_idx as nat
    }

    /// Committed length: 0 means no pending message, otherwise a fully
    /// assembled message of that length awaits the consumer.
    pub closed spec fn committed(&self) -> nat {
        self.buff_len as nat
    }

    /// How many chunks were rejected because a message was still pending.
    pub closed spec fn dropped_count(&self) -> nat {
        self.dropped as nat
    }

    /// A fully assembled message awaits the consumer.
    pub open spec fn pending(&self) -> bool {
        self.committed() > 0
    }

    /// The pending message: the committed prefix of the buffer.
    pub open spec fn message(&self) -> Seq<u8> {
        self.buffer_view().take(self.committed() as int)
    }

    /// Well-formedness: the cursor stays strictly inside the buffer and a
    /// committed length never exceeds capacity, so neither side can read or
    /// write out of bounds.
    pub open spec fn wf(&self) -> bool {
        &&& 1 <= self.capacity()
        &&& self.cursor() < self.capacity()
        &&& self.committed() <= self.capacity()
    }

    /// Fresh state with capacity `capacity`: empty buffer, cursor at the
    /// start, nothing committed.
    pub fn new(capacity: usize) -> (r: ReceiveState)
        requires
            1 <= capacity,
        ensures
            r.wf(),
            r.capacity() == capacity,
            r.buffer_view() == Seq::new(capacity as nat, |i: int| 0u8),
            r.cursor() == 0,
            r.committed() == 0,
            r.dropped_count() == 0,
    {
        let mut buffer: Vec<u8> = Vec::new();
        while buffer.len() < capacity
            invariant
                buffer@.len() <= capacity,
                forall|i: int| 0 <= i < buffer@.len() ==> buffer@[i] == 0u8,
            decreases capacity - buffer@.len(),
        {
            buffer.push(0);
        }
        let r = ReceiveState { buffer, write_idx: 0, buff_len: 0, dropped: 0 };
        proof {
            assert(r.buffer_view() =~= Seq::new(capacity as nat, |i: int| 0u8));
        }
        r
    }

    /// Producer step, one received chunk (at least one byte):
    ///
    /// * while a message is pending the chunk is rejected whole
    ///   (back-pressure, counted in `dropped_count`), so the consumer never
    ///   sees a pending message change under it;
    /// * a chunk the buffer cannot hold truncates: the current contents are
    ///   committed as a complete-but-truncated message of the full capacity
    ///   and the cursor resets, in preference to corrupting memory;
    /// * a chunk ending in the sentinel commits the bytes before the
    ///   sentinel: the message is the buffer up to cursor + (chunk length
    ///   − 1) and the cursor resets;
    /// * any other chunk is a continuation: it lands at the cursor, which
    ///   advances by the chunk length.
    pub fn accept_chunk(&mut self, chunk: &[u8])
        requires
            old(self).wf(),
            chunk@.len() >= 1,
        ensures
            final(self).wf(),
            final(self).capacity() == old(self).capacity(),
            old(self).pending() ==> (final(self).buffer_view() == old(self).buffer_view()
                && final(self).cursor() == old(self).cursor()
                && final(self).committed() == old(self).committed()
                && final(self).dropped_count() == (if old(self).dropped_count() < usize::MAX {
                    old(self).dropped_count() + 1
                } else {
                    old(self).dropped_count()
                })),
            !old(self).pending() ==> final(self).dropped_count() == old(self).dropped_count(),
            !old(self).pending() && old(self).cursor() + chunk@.len() >= old(self).capacity()
                ==> (final(self).buffer_view() == old(self).buffer_view() && final(self).cursor()
                == 0 && final(self).committed() == old(self).capacity()),
            !old(self).pending() && old(self).cursor() + chunk@.len() < old(self).capacity()
                && chunk@.last() == SENTINEL ==> (final(self).buffer_view() == spliced(
                old(self).buffer_view(),
                old(self).cursor() as int,
                chunk@.take(chunk@.len() - 1),
            ) && final(self).cursor() == 0 && final(self).committed() == old(self).cursor()
                + chunk@.len() - 1),
            !old(self).pending() && old(self).cursor() + chunk@.len() < old(self).capacity()
                && chunk@.last() != SENTINEL ==> (final(self).buffer_view() == spliced(
                old(self).buffer_view(),
                old(self).cursor() as int,
                chunk@,
            ) && final(self).cursor() == old(self).cursor() + chunk@.len()
                && final(self).committed() == 0),
    {
        let n = chunk.len();
        if self.buff_len > 0 {
            // Back-pressure: a pending message must be drained first.
            if self.dropped < usize::MAX {
                self.dropped = self.dropped + 1;
            }
            return ;
        }
        if n >= self.buffer.len() - self.write_idx {
            // Overflow: keep what is already assembled, commit it whole.
            self.write_idx = 0;
            self.buff_len = self.buffer.len();
            return ;
        }
        let end = chunk[n - 1] == SENTINEL;
        let through = if end {
            n - 1
        } else {
            n
        };
        let base = self.write_idx;
        let mut i: usize = 0;
        while i < through
            invariant
                i <= through,
                through <= n,
                n == chunk@.len(),
                base == old(self).cursor(),
                base + n < self.buffer@.len(),
                self.buffer@.len() <= usize::MAX,
                self.buffer@.len() == old(self).capacity(),
                self.write_idx == old(self).write_idx,
                self.buff_len == old(self).buff_len,
                self.dropped == old(self).dropped,
                forall|j: int| 0 <= j < i ==> self.buffer@[base + j] == chunk@[j],
                forall|j: int|
                    (0 <= j < base || base + i <= j < self.buffer@.len()) ==> self.buffer@[j]
                        == old(self).buffer_view()[j],
            decreases through - i,
        {
            let b = chunk[i];
            self.buffer.set(base + i, b);
            i += 1;
        }
        proof {
            assert(self.buffer@ =~= spliced(
                old(self).buffer_view(),
                base as int,
                chunk@.take(through as int),
            ));
        }
        if end {
            self.buff_len = self.write_idx + through;
            self.write_idx = 0;
        } else {
            self.write_idx = self.write_idx + through;
        }
        proof {
            if end {
                assert(chunk@.take(through as int) =~= chunk@.take(chunk@.len() - 1));
            } else {
                assert(chunk@.take(through as int) =~= chunk@);
            }
        }
    }

    /// Consumer step: if a message is pending, copy it out and clear the
    /// committed length; the copy and the reset form one step so they sit in
    /// the same critical-section window.  Returns the message, or nothing
    /// when none was pending.
    pub fn take_message(&mut self) -> (msg: Option<Vec<u8>>)
        requires
            old(self).wf(),
        ensures
            final(self).wf(),
            final(self).capacity() == old(self).capacity(),
            final(self).buffer_view() == old(self).buffer_view(),
            final(self).cursor() == old(self).cursor(),
            final(self).dropped_count() == old(self).dropped_count(),
            final(self).committed() == 0,
            old(self).pending() ==> (msg is Some && msg->0@ == old(self).message()),
            !old(self).pending() ==> msg is None,
    {
        if self.buff_len > 0 {
            let len = self.buff_len;
            let mut out: Vec<u8> = Vec::new();
            let mut i: usize = 0;
            while i < len
                invariant
                    i <= len,
                    len == old(self).committed(),
                    len <= self.buffer@.len(),
                    self.buffer@ == old(self).buffer_view(),
                    self.write_idx == old(self).write_idx,
                    self.buff_len == old(self).buff_len,
                    self.dropped == old(self).dropped,
                    out@.len() == i,
                    forall|j: int| 0 <= j < i ==> out@[j] == self.buffer@[j],
                decreases len - i,
            {
                out.push(self.buffer[i]);
                i += 1;
            }
            self.buff_len = 0;
            proof {
                assert(out@ =~= old(self).message());
            }
            Option::Some(out)
        } else {
            Option::None
        }
    }

    /// Committed length of the pending message (0 when none is pending).
    pub fn committed_len(&self) -> (len: usize)
        ensures
            len == self.committed(),
    {
        self.buff_len
    }

    /// The producer's current write cursor.
    pub fn cursor_pos(&self) -> (idx: usize)
        ensures
            idx == self.cursor(),
    {
        self.write_idx
    }

    /// The buffer capacity `C`.
    pub fn buffer_capacity(&self) -> (c: usize)
        ensures
            c == self.capacity(),
    {
        self.buffer.len()
    }

    /// How many chunks back-pressure has rejected (saturating).
    pub fn dropped_chunks(&self) -> (d: usize)
        ensures
            d == self.dropped_count(),
    {
        self.dropped
    }
}

} // verus!
