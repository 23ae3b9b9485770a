//! Send and receive buffers.
//!
//! Both buffers are byte rings that are addressed by sequence numbers. Bytes
//! between `tail` and `head` are there to be read, and the room between `head`
//! and `tail + N` is there to be written.

use crate::protocol::tcp::ring::{
    copy_block, lemma_read_rotates, lemma_slot_is_mod, lemma_slot_shift, lemma_write_window,
    ring_read, store,
};
use crate::protocol::tcp::{to_window_field, window_field, TCP_DEFAULT_WINDOW_SZ};
use crate::time::{clock_measured, clock_read, elapsed_since, Duration};
use std::time::Instant;
use vstd::prelude::*;
use vstd::std_specs::cmp::PartialEqSpecImpl;

verus! {

/// The send buffer no longer takes data.
#[derive(Debug)]
pub struct SendBufClosed;

#[derive(Debug)]
pub enum SetTailError {
    TooBig,
    LowerThanCurrent,
}

#[derive(Debug)]
pub enum SliceError {
    /// Errs when the slice starts at a sequence number lower than the current
    /// buffer tail. Contains the current buffer tail in the error.
    StartSeqTooLow(usize),
    /// Errs when the requested slice goes beyond the actual slice.
    /// Returns the maximum number of bytes sliceable.
    OutOfRange(usize),
}

#[derive(Debug)]
pub enum SliceCopyError {
    TooSmall,
}

/// Slice into a ring buffer.
///
/// Abstract over how a slice could be split into two in a ring buffer.
#[derive(Debug)]
pub struct ByteSlice<'a> {
    first: &'a [u8],
    second: Option<&'a [u8]>,
}

impl<'a> View for ByteSlice<'a> {
    type V = Seq<u8>;

    closed spec fn view(&self) -> Seq<u8> {
        match self.second {
            Some(second) => self.first@ + second@,
            None => self.first@,
        }
    }
}

impl<'a> ByteSlice<'a> {
    #[verifier::type_invariant]
    spec fn fits(self) -> bool {
        self@.len() <= usize::MAX
    }

    fn new(first: &'a [u8], second: Option<&'a [u8]>) -> (r: Self)
        requires
            first@.len() + (match second {
                Some(second) => second@.len(),
                None => 0,
            }) <= usize::MAX,
        ensures
            r@ == (match second {
                Some(second) => first@ + second@,
                None => first@,
            }),
    {
        Self { first, second }
    }

    /// Gets number of bytes in this slice.
    pub fn len(&self) -> (r: usize)
        ensures
            r == self@.len(),
    {
        proof {
            use_type_invariant(self);
        }
        match self.second {
            Some(second) => second.len() + self.first.len(),
            None => self.first.len(),
        }
    }

    /// Checks whether the slice has data.
    pub fn is_empty(&self) -> (r: bool)
        ensures
            r == (self@.len() == 0),
    {
        self.len() == 0
    }

    /// Construct a new slice that is a sub-slice of the current slice.
    pub fn slice_front(&self, n_bytes: usize) -> (r: Result<ByteSlice<'a>, SliceError>)
        ensures
            match r {
                Ok(s) => n_bytes <= self@.len() && s@ == self@.subrange(0, n_bytes as int),
                Err(e) => n_bytes > self@.len() && e == SliceError::OutOfRange(
                    self@.len() as usize,
                ),
            },
    {
        self.slice(0, n_bytes)
    }

    /// Construct a slice of [offset, offset + n_bytes).
    pub fn slice(&self, offset: usize, n_bytes: usize) -> (r: Result<ByteSlice<'a>, SliceError>)
        ensures
            match r {
                Ok(s) => {
                    &&& offset + n_bytes <= self@.len()
                    &&& s@ == self@.subrange(offset as int, offset + n_bytes)
                },
                Err(e) => {
                    &&& offset + n_bytes > self@.len()
                    &&& e == SliceError::OutOfRange(
                        if offset > self@.len() {
                            0
                        } else {
                            (self@.len() - offset) as usize
                        },
                    )
                },
            },
    {
        let len: usize = self.len();
        if offset > len {
            return Err(SliceError::OutOfRange(0));
        }
        if n_bytes > len - offset {
            return Err(SliceError::OutOfRange(len - offset));
        }
        let start: usize = offset;
        let end: usize = offset + n_bytes;
        let n_first: usize = self.first.len();
        let r = match self.second {
            Some(second) => {
                if end <= n_first {
                    // sliced content is all in the first slice
                    ByteSlice::new(&self.first[start..end], None)
                } else if start < n_first {
                    // sliced content is in both slices
                    ByteSlice::new(&self.first[start..n_first], Some(&second[0..end - n_first]))
                } else {
                    // sliced content is all in the second slice
                    ByteSlice::new(&second[start - n_first..end - n_first], None)
                }
            },
            None => ByteSlice::new(&self.first[start..end], None),
        };
        assert(r@ =~= self@.subrange(offset as int, offset + n_bytes));
        Ok(r)
    }

    /// Copies the whole slice to the front of `buf`.
    pub fn copy_into_buf(&self, buf: &mut [u8]) -> (r: Result<(), SliceCopyError>)
        ensures
            final(buf)@.len() == old(buf)@.len(),
            match r {
                Ok(_) => {
                    &&& self@.len() <= old(buf)@.len()
                    &&& final(buf)@ == self@ + old(buf)@.subrange(
                        self@.len() as int,
                        old(buf)@.len() as int,
                    )
                },
                Err(_) => self@.len() > old(buf)@.len() && final(buf)@ == old(buf)@,
            },
    {
        if self.len() > buf.len() {
            return Err(SliceCopyError::TooSmall);
        }
        copy_block(buf, 0, self.first);
        if let Some(second) = self.second {
            let begin: usize = self.first.len();
            copy_block(buf, begin, second);
        }
        assert(buf@ =~= self@ + old(buf)@.subrange(self@.len() as int, old(buf)@.len() as int));
        Ok(())
    }
}

/// Whether two slices hold the same bytes.
fn bytes_equal(a: &[u8], b: &[u8]) -> (r: bool)
    ensures
        r == (a@ == b@),
{
    if a.len() != b.len() {
        return false;
    }
    let mut i: usize = 0;
    while i < a.len()
        invariant
            i <= a@.len(),
            a@.len() == b@.len(),
            forall|j: int| 0 <= j < i ==> a@[j] == b@[j],
        decreases a@.len() - i,
    {
        if a[i] != b[i] {
            return false;
        }
        i = i + 1;
    }
    assert(a@ =~= b@);
    true
}

impl<'a> PartialEqSpecImpl<[u8]> for ByteSlice<'a> {
    open spec fn obeys_eq_spec() -> bool {
        true
    }

    open spec fn eq_spec(&self, other: &[u8]) -> bool {
        self@ == other@
    }
}

impl<'a> PartialEq<[u8]> for ByteSlice<'a> {
    fn eq(&self, other: &[u8]) -> (r: bool) {
        match self.second {
            Some(second) => {
                let n_first: usize = self.first.len();
                if other.len() < n_first {
                    // other is definitely shorter than self
                    return false;
                }
                let head: &[u8] = &other[0..n_first];
                let rest: &[u8] = &other[n_first..other.len()];
                let r = bytes_equal(self.first, head) && bytes_equal(second, rest);
                proof {
                    assert(other@ =~= head@ + rest@);
                    if self@ == other@ {
                        assert(self.first@ =~= self@.subrange(0, n_first as int));
                        assert(second@ =~= self@.subrange(n_first as int, self@.len() as int));
                    }
                }
                r
            },
            None => bytes_equal(other, self.first),
        }
    }
}

/// What a send buffer holds: the unconsumed bytes, and the sequence number of
/// the first of them.
pub struct SendBufView {
    pub tail: int,
    pub data: Seq<u8>,
}

impl SendBufView {
    /// The sequence number of the next byte to be written.
    pub open spec fn head(self) -> int {
        self.tail + self.data.len()
    }

    /// The buffer after `bytes` were added at the head.
    pub open spec fn push(self, bytes: Seq<u8>) -> SendBufView {
        SendBufView { data: self.data + bytes, ..self }
    }

    /// The buffer after all bytes below `seq_no` were discarded.
    pub open spec fn advance(self, seq_no: int) -> SendBufView {
        SendBufView {
            tail: seq_no,
            data: self.data.subrange(seq_no - self.tail, self.data.len() as int),
        }
    }
}

/// The smaller of two integers.
pub open spec fn smaller(a: int, b: int) -> int {
    if a < b {
        a
    } else {
        b
    }
}

/// A fixed-sized buffer for buffering data to be sent over TCP.
///
/// This is where the low-level mechanics of the TCP send buffer is. For a
/// higher-level API that is directly used by `TcpConn`, see `SendBuf`.
///
/// This struct is akin to a producer-consumer buffer. Here, the producer is
/// application code putting more data into the send buffer. The consumer is
/// TCP transmitting data to the receiver, advancing the consumed portion as
/// transmitted data are acked.
///
/// This struct does not know about usable window size, i.e. how much data can
/// be transmitted. It is up to the caller to maintain usable window size, and
/// advance the consumed portion upon acknowledgement.
#[derive(Debug)]
pub struct InnerSendBuf<const N: usize> {
    // Index of the last unacked byte in the byte stream.
    // This is the "tail" of a producer-consumer buffer.
    // This is SDR.UNA in the protocol.
    tail: usize,
    last_tail_mutated: Instant,
    // Index of the next byte to be written by the user.
    // This is LBW + 1, where LBW is last byte written in protocol terminology.
    // LBW must not overtake UNA in terms of ring buffer indices.
    head: usize,
    // Ring buffer.
    buf: Vec<u8>,
}

impl<const N: usize> View for InnerSendBuf<N> {
    type V = SendBufView;

    closed spec fn view(&self) -> SendBufView {
        SendBufView {
            tail: self.tail as int,
            data: ring_read(self.buf@, self.tail as int, self.head - self.tail),
        }
    }
}

impl<const N: usize> InnerSendBuf<N> {
    /// The ring has `N` bytes, and no more than that are unconsumed.
    pub closed spec fn wf(self) -> bool {
        &&& self.buf@.len() == N
        &&& self.tail <= self.head
        &&& self.head - self.tail <= N
    }

    /// When the tail moved last.
    pub closed spec fn tail_moved_at(self) -> Instant {
        self.last_tail_mutated
    }

    /// Whether the time at which the tail moved is a new one just where it has moved.
    pub open spec fn times_tail(self, after: Self) -> bool {
        if after@.tail == self@.tail {
            after.tail_moved_at() == self.tail_moved_at()
        } else {
            clock_read(after.tail_moved_at())
        }
    }

    /// What the invariant says of the contents.
    pub proof fn lemma_wf(self)
        requires
            self.wf(),
        ensures
            self@.data.len() <= N,
            0 <= self@.tail,
            self@.head() <= usize::MAX,
    {
    }

    /// An empty buffer whose first byte will have the given sequence number.
    pub fn new(initial_seq_no: usize) -> (r: Self)
        ensures
            r.wf(),
            r@ == (SendBufView { tail: initial_seq_no as int, data: Seq::empty() }),
            clock_read(r.tail_moved_at()),
    {
        let r = Self {
            buf: vec![0; N],
            tail: initial_seq_no,
            head: initial_seq_no,
            last_tail_mutated: Instant::now(),
        };
        assert(r@.data =~= Seq::empty());
        r
    }

    /// Checks whether the send buffer has unacked data.
    pub fn is_empty(&self) -> (r: bool)
        requires
            self.wf(),
        ensures
            r == (self@.data.len() == 0),
    {
        self.tail == self.head
    }

    /// Checks whether application can continue adding data to the buffer.
    pub fn is_full(&self) -> (r: bool)
        requires
            self.wf(),
            self@.tail + N <= usize::MAX,
        ensures
            r == (self@.data.len() == N),
    {
        let max: usize = self.tail + self.size();
        self.head == max
    }

    /// Attempts to add bytes to the buffer, returning the number of bytes successfully added.
    ///
    /// Returns 0 when the buffer was already full before this write.
    pub fn write(&mut self, bytes: &[u8]) -> (r: usize)
        requires
            old(self).wf(),
            0 < N,
            old(self)@.tail + N <= usize::MAX,
        ensures
            final(self).wf(),
            r == smaller(N - old(self)@.data.len(), bytes@.len() as int),
            final(self)@ == old(self)@.push(bytes@.subrange(0, r as int)),
            final(self).tail_moved_at() == old(self).tail_moved_at(),
    {
        let remaining: usize = self.write_remaining_size();
        let will_write: usize = if remaining < bytes.len() {
            remaining
        } else {
            bytes.len()
        };
        let bytes: &[u8] = &bytes[0..will_write];
        proof {
            lemma_write_window(
                self.buf@,
                self.tail as int,
                self.head - self.tail,
                bytes@,
            );
        }
        let ghost before = ring_read(self.buf@, self.tail as int, N as int);
        store(&mut self.buf, self.head, bytes);
        self.head = self.head + will_write;
        proof {
            let after = ring_read(self.buf@, self.tail as int, N as int);
            let data = old(self)@.data;
            assert forall|k: int| 0 <= k < self@.data.len() implies self@.data[k] == (data
                + bytes@)[k] by {
                assert(self@.data[k] == after[k]);
                if k < data.len() {
                    assert(data[k] == before[k]);
                }
            }
            assert(self@.data =~= data + bytes@);
        }
        will_write
    }

    /// Gets the slice of unconsumed bytes in the buffer.
    pub fn unconsumed<'a>(&'a self) -> (r: ByteSlice<'a>)
        requires
            self.wf(),
            0 < N,
        ensures
            r@ == self@.data,
    {
        let size: usize = self.size();
        let start: usize = self.tail % size;
        let end: usize = self.head % size;
        let ring: &[u8] = self.buf.as_slice();
        proof {
            if self.head - self.tail < N {
                lemma_slot_is_mod(self.tail as int, self.head - self.tail, N as int);
            } else {
                vstd::arithmetic::div_mod::lemma_mod_add_multiples_vanish(
                    self.tail as int,
                    N as int,
                );
            }
        }
        let r = if start < end {
            ByteSlice::new(&ring[start..end], None)
        } else if start == end {
            if self.head == self.tail {
                ByteSlice::new(&ring[start..end], None)
            } else {
                ByteSlice::new(&ring[start..size], Some(&ring[0..end]))
            }
        } else {
            ByteSlice::new(&ring[start..size], Some(&ring[0..end]))
        };
        assert(r@ =~= self@.data);
        r
    }

    /// Attempts to advance the unconsumed portion to the provided sequence number.
    ///
    /// Errs when the provided sequence number is greater than the sequence
    /// number of the head of the buffer.
    ///
    /// On success, returns a boolean indicating whether the tail was mutated:
    /// i.e. return false when tail was already set to `seq_no`.
    pub fn set_tail(&mut self, seq_no: usize) -> (r: Result<bool, SetTailError>)
        requires
            old(self).wf(),
        ensures
            final(self).wf(),
            match r {
                Ok(mutated) => {
                    &&& old(self)@.tail <= seq_no <= old(self)@.head()
                    &&& mutated == (seq_no != old(self)@.tail)
                    &&& final(self)@ == old(self)@.advance(seq_no as int)
                    &&& mutated ==> clock_read(final(self).tail_moved_at())
                    &&& !mutated ==> *final(self) == *old(self)
                },
                Err(SetTailError::TooBig) => {
                    &&& seq_no > old(self)@.head()
                    &&& *final(self) == *old(self)
                },
                Err(SetTailError::LowerThanCurrent) => {
                    &&& seq_no < old(self)@.tail
                    &&& *final(self) == *old(self)
                },
            },
    {
        if seq_no == self.tail {
            assert(self@.advance(seq_no as int).data =~= self@.data);
            return Ok(false);
        }
        if seq_no > self.head {
            Err(SetTailError::TooBig)
        } else if seq_no < self.tail {
            Err(SetTailError::LowerThanCurrent)
        } else {
            proof {
                let d = seq_no - self.tail;
                let after = ring_read(self.buf@, seq_no as int, self.head - seq_no);
                assert forall|k: int| 0 <= k < self.head - seq_no implies after[k]
                    == self@.data[d + k] by {
                    lemma_slot_shift(self.tail as int, d, k, N as int);
                }
                assert(after =~= self@.advance(seq_no as int).data);
            }
            self.tail = seq_no;
            self.last_tail_mutated = Instant::now();
            Ok(true)
        }
    }

    /// Get how much data this buffer can hold.
    pub fn size(&self) -> (r: usize)
        requires
            self.wf(),
        ensures
            r == N,
    {
        self.buf.len()
    }

    /// Get how many bytes can be written to the buffer before it is full.
    pub fn write_remaining_size(&self) -> (r: usize)
        requires
            self.wf(),
            self@.tail + N <= usize::MAX,
        ensures
            r == N - self@.data.len(),
    {
        self.tail + self.size() - self.head
    }

    /// Get how many bytes can be read before the buffer becomes empty.
    pub fn read_remaining_size(&self) -> (r: usize)
        requires
            self.wf(),
        ensures
            r == self@.data.len(),
    {
        self.head - self.tail
    }
}

/// A segment that arrived before the bytes in front of it.
#[derive(PartialEq, Eq, Structural, Debug, Copy, Clone)]
pub struct SegmentMeta {
    pub seq_no: usize,
    pub size: usize,
}

impl SegmentMeta {
    /// Whether the byte at sequence number `p` belongs to this segment.
    pub open spec fn covers(self, p: int) -> bool {
        self.seq_no <= p < self.seq_no + self.size
    }
}

/// The receive buffer takes no more data from the remote.
#[derive(Debug)]
pub struct RecvBufClosed;

#[derive(Debug)]
pub enum FillError {
    /// Failed to fill the entire provided buffer because the receive buffer
    /// has been closed (because the remote has closed).
    /// Returns the number of bytes written into the buffer.
    Closed(usize),
}

#[derive(Debug)]
pub enum WriteRangeError {
    /// Starting at a sequence number below the minimal bound. Contains the
    /// smallest sequence number that can be written to.
    SeqNoTooSmall(usize),
    /// Writing too much into the buffer. Contains the sequence number
    /// corresponding to the tail of the buffer.
    ExceedBuffer(usize),
}

/// Whether some segment of `early` holds the byte at sequence number `p`.
pub open spec fn covered(early: Set<SegmentMeta>, p: int) -> bool {
    exists|s: SegmentMeta| #[trigger] early.contains(s) && s.covers(p)
}

/// Whether the bytes from `from` up to but not including `h` have all arrived
/// early, and the byte at `h` has not.
pub open spec fn is_frontier(early: Set<SegmentMeta>, from: int, h: int) -> bool {
    &&& from <= h
    &&& forall|p: int| from <= p < h ==> covered(early, p)
    &&& !covered(early, h)
}

/// The furthest extent of the bytes that are contiguous with `from`.
pub open spec fn frontier(early: Set<SegmentMeta>, from: int) -> int {
    choose|h: int| is_frontier(early, from, h)
}

/// There is no more than one frontier.
pub proof fn lemma_frontier_unique(early: Set<SegmentMeta>, from: int, h: int)
    requires
        is_frontier(early, from, h),
    ensures
        frontier(early, from) == h,
{
    let g = frontier(early, from);
    assert(is_frontier(early, from, g));
    if g < h {
        assert(covered(early, g));
    }
    if h < g {
        assert(covered(early, h));
    }
}

/// What a receive buffer holds.
pub struct RecvBufView {
    /// The sequence number of the next byte to be consumed.
    pub tail: int,
    /// The sequence number of the next byte expected of the sender.
    pub head: int,
    /// What is stored at the sequence numbers from `tail` on.
    pub window: Seq<u8>,
    /// The segments that arrived beyond `head`.
    pub early: Set<SegmentMeta>,
}

impl RecvBufView {
    /// The byte stored at sequence number `p`.
    pub open spec fn at(self, p: int) -> u8 {
        self.window[p - self.tail]
    }

    /// The bytes that can be consumed.
    pub open spec fn readable(self) -> Seq<u8> {
        self.window.subrange(0, self.head - self.tail)
    }

    /// One past the last sequence number that can be written to.
    pub open spec fn limit(self) -> int {
        self.tail + self.window.len()
    }

    /// The head is inside the window, and early segments have bytes, which lie between the head
    /// and the end of the window.
    pub open spec fn wf(self) -> bool {
        &&& 0 <= self.tail <= self.head <= self.limit()
        &&& forall|s: SegmentMeta| #[trigger]
            self.early.contains(s) ==> self.head < s.seq_no && 0 < s.size && s.seq_no + s.size
                <= self.limit()
    }

    /// Whether the bytes at `seq_no` up to `seq_no + len` can be written.
    pub open spec fn writable(self, seq_no: int, len: int) -> bool {
        self.head <= seq_no && seq_no + len <= self.limit()
    }

    /// The window after `bytes` were stored at `seq_no`.
    pub open spec fn stored(self, seq_no: int, bytes: Seq<u8>) -> Seq<u8> {
        Seq::new(
            self.window.len(),
            |k: int|
                if seq_no - self.tail <= k < seq_no - self.tail + bytes.len() {
                    bytes[k - (seq_no - self.tail)]
                } else {
                    self.window[k]
                },
        )
    }

    /// The buffer after a segment arrived. A segment at the head moves the head
    /// to the furthest extent of what is contiguous with it; any other segment
    /// is remembered as an early arrival. A segment without bytes changes nothing.
    pub open spec fn write(self, seq_no: usize, bytes: Seq<u8>) -> RecvBufView {
        if bytes.len() == 0 {
            self
        } else if seq_no == self.head {
            let h = frontier(self.early, self.head + bytes.len());
            RecvBufView {
                head: h,
                window: self.stored(seq_no as int, bytes),
                early: self.early.filter(|s: SegmentMeta| s.seq_no > h),
                ..self
            }
        } else {
            RecvBufView {
                window: self.stored(seq_no as int, bytes),
                early: self.early.insert(
                    SegmentMeta { seq_no, size: bytes.len() as usize },
                ),
                ..self
            }
        }
    }

    /// The buffer after `n` bytes were consumed: their places are at the end of
    /// the window now.
    pub open spec fn consume(self, n: int) -> RecvBufView {
        RecvBufView {
            tail: self.tail + n,
            window: self.window.subrange(n, self.window.len() as int) + self.window.subrange(0, n),
            ..self
        }
    }
}

/// A fixed-sized buffer for constructing a contiguous byte stream over TCP.
///
/// Upon receiving a packet, the payload can be written into this buffer via
/// `RecvBuf::write()`. Additionally, window size can be probed by inspecting
/// `RecvBuf::write_remaining_size()`.
#[derive(Debug)]
pub struct InnerRecvBuf<const N: usize> {
    buf: Vec<u8>,
    tail: usize,
    head: usize,
    // The segments beyond the head, the lowest sequence number last.
    early_arrivals: Vec<SegmentMeta>,
}

impl<const N: usize> View for InnerRecvBuf<N> {
    type V = RecvBufView;

    closed spec fn view(&self) -> RecvBufView {
        RecvBufView {
            tail: self.tail as int,
            head: self.head as int,
            window: ring_read(self.buf@, self.tail as int, N as int),
            early: self.early_arrivals@.to_set(),
        }
    }
}

/// Whether sequence numbers do not increase along `v`.
spec fn descending(v: Seq<SegmentMeta>) -> bool {
    forall|i: int, j: int| 0 <= i <= j < v.len() ==> v[i].seq_no >= v[j].seq_no
}

impl<const N: usize> InnerRecvBuf<N> {
    /// The contents are in order, and the early arrivals are sorted.
    pub closed spec fn wf(self) -> bool {
        &&& self.buf@.len() == N
        &&& self@.wf()
        &&& descending(self.early_arrivals@)
    }

    /// What the invariant says of the contents.
    pub proof fn lemma_wf(self)
        requires
            self.wf(),
        ensures
            self@.wf(),
            self@.window.len() == N,
            self@.head <= usize::MAX,
    {
    }

    /// An empty buffer that expects the given sequence number first.
    pub fn new(initial_seq_no: usize) -> (r: Self)
        ensures
            r.wf(),
            r@ == (RecvBufView {
                tail: initial_seq_no as int,
                head: initial_seq_no as int,
                window: Seq::new(N as nat, |k: int| 0u8),
                early: Set::empty(),
            }),
    {
        let r = Self {
            buf: vec![0; N],
            tail: initial_seq_no,
            head: initial_seq_no,
            early_arrivals: Vec::new(),
        };
        proof {
            assert forall|k: int| 0 <= k < N implies r@.window[k] == 0u8 by {
                lemma_slot_is_mod(initial_seq_no as int, k, N as int);
            }
            assert(r@.window =~= Seq::new(N as nat, |k: int| 0u8));
            assert(r@.early =~= Set::empty());
        }
        r
    }

    /// Attempts to fill the provided buffer.
    ///
    /// The function returns a slice of written bytes to the caller. The
    /// returned slice is a subslice of the provided buffer.
    ///
    /// Bytes can only be consumed once; the internal buffer is free to discard
    /// consumed bytes.
    pub fn try_fill<'a>(&mut self, dest: &'a mut [u8]) -> (r: &'a [u8])
        requires
            old(self).wf(),
        ensures
            final(self).wf(),
            ({
                let n = smaller(old(self)@.readable().len() as int, old(dest)@.len() as int);
                &&& r@ == old(self)@.readable().subrange(0, n)
                &&& final(self)@ == old(self)@.consume(n)
                &&& final(dest)@ == r@ + old(dest)@.subrange(n, old(dest)@.len() as int)
            }),
    {
        let n_bytes: usize = dest.len();
        let remaining: usize = self.read_remaining_size();
        if remaining == 0 {
            assert(self@.consume(0).window =~= self@.window);
            &dest[0..0]
        } else {
            let to_consume: usize = if remaining < n_bytes {
                remaining
            } else {
                n_bytes
            };
            self.consume_unchecked(to_consume, dest);
            &dest[0..to_consume]
        }
    }

    /// Attempts to write bytes starting at a sequence number.
    ///
    /// This method errs when the write remaining size of this buffer is less
    /// than the number of bytes to be written.
    ///
    /// Either all bytes or no byte will be written: in the error case, no byte
    /// shall be written in the buffer.
    pub fn write(&mut self, seq_no: usize, bytes: &[u8]) -> (r: Result<(), WriteRangeError>)
        requires
            old(self).wf(),
            0 < N,
            old(self)@.tail + N <= usize::MAX,
            seq_no + bytes@.len() <= usize::MAX,
        ensures
            final(self).wf(),
            match r {
                Ok(_) => {
                    &&& old(self)@.writable(seq_no as int, bytes@.len() as int)
                    &&& final(self)@ == old(self)@.write(seq_no, bytes@)
                },
                Err(WriteRangeError::SeqNoTooSmall(min)) => {
                    &&& seq_no < old(self)@.head
                    &&& min == old(self)@.head
                    &&& *final(self) == *old(self)
                },
                Err(WriteRangeError::ExceedBuffer(max)) => {
                    &&& seq_no >= old(self)@.head
                    &&& seq_no + bytes@.len() > old(self)@.limit()
                    &&& max == old(self)@.limit()
                    &&& *final(self) == *old(self)
                },
            },
    {
        match self.validate_write_range(seq_no, seq_no + bytes.len()) {
            Ok(_) => {
                self.write_unchecked(seq_no, bytes);
                Ok(())
            },
            Err(e) => Err(e),
        }
    }

    /// Whether the internal byte buffer is non-contiguous, i.e. some bytes
    /// arrived while some other bytes before them have not arrived.
    pub fn has_early_arrival(&self) -> (r: bool)
        requires
            self.wf(),
        ensures
            r == exists|p: int| covered(self@.early, p),
    {
        proof {
            if self.early_arrivals@.len() > 0 {
                let s = self.early_arrivals@[0];
                assert(self@.early.contains(s) && s.covers(s.seq_no as int));
                assert(covered(self@.early, s.seq_no as int));
            }
        }
        self.early_arrivals.len() > 0
    }

    /// Get the next sequence number expected to be sent by the sender.
    pub fn expected_next(&self) -> (r: usize)
        ensures
            r == self@.head,
    {
        self.head
    }

    /// Get the buffer room between "expected_next" and the end of the buffer.
    pub fn write_remaining_size(&self) -> (r: usize)
        requires
            self.wf(),
            self@.tail + N <= usize::MAX,
        ensures
            r == self@.limit() - self@.head,
    {
        self.tail + self.size() - self.head
    }

    /// Get the [min, max) sequence number that can be written into.
    pub fn write_range(&self) -> (r: (usize, usize))
        requires
            self.wf(),
            self@.tail + N <= usize::MAX,
        ensures
            r.0 == self@.head,
            r.1 == self@.limit(),
    {
        (self.head, self.tail + self.buf.len())
    }

    /// Get the number of consumable bytes.
    ///
    /// Note that early arrival bytes are not consumable.
    pub fn read_remaining_size(&self) -> (r: usize)
        requires
            self.wf(),
        ensures
            r == self@.readable().len(),
    {
        self.head - self.tail
    }

    fn size(&self) -> (r: usize)
        requires
            self.wf(),
        ensures
            r == N,
    {
        self.buf.len()
    }

    /// Whether the provided range is within write range.
    ///
    /// end_seq_no is exclusive: this checks writing up to but not including
    /// end_seq_no.
    fn validate_write_range(&self, start_seq_no: usize, end_seq_no: usize) -> (r: Result<
        (),
        WriteRangeError,
    >)
        requires
            self.wf(),
            self@.tail + N <= usize::MAX,
        ensures
            match r {
                Ok(_) => self@.head <= start_seq_no && end_seq_no <= self@.limit(),
                Err(WriteRangeError::SeqNoTooSmall(min)) => start_seq_no < self@.head && min
                    == self@.head,
                Err(WriteRangeError::ExceedBuffer(max)) => start_seq_no >= self@.head && end_seq_no
                    > self@.limit() && max == self@.limit(),
            },
    {
        let (min, max) = self.write_range();
        if start_seq_no < min {
            return Err(WriteRangeError::SeqNoTooSmall(min));
        }
        if end_seq_no > max {
            return Err(WriteRangeError::ExceedBuffer(max));
        }
        Ok(())
    }

    fn write_unchecked(&mut self, seq_no: usize, bytes: &[u8])
        requires
            old(self).wf(),
            0 < N,
            old(self)@.limit() <= usize::MAX,
            old(self)@.writable(seq_no as int, bytes@.len() as int),
        ensures
            final(self).wf(),
            final(self)@ == old(self)@.write(seq_no, bytes@),
    {
        if bytes.len() == 0 {
            return ;
        }
        proof {
            lemma_write_window(
                self.buf@,
                self.tail as int,
                seq_no - self.tail,
                bytes@,
            );
        }
        store(&mut self.buf, seq_no, bytes);
        assert(self@.window =~= old(self)@.stored(seq_no as int, bytes@));
        assert(self@.early == old(self)@.early);
        if seq_no == self.head {
            self.head = self.head + bytes.len();
            assert(self@.early == old(self)@.early);
            self.drain_early_arrivals();
        } else {
            self.push_early_arrival(SegmentMeta { seq_no, size: bytes.len() });
        }
    }

    /// Consume exactly n bytes.
    fn consume_unchecked(&mut self, n_bytes: usize, dest: &mut [u8])
        requires
            old(self).wf(),
            n_bytes <= old(self)@.readable().len(),
            n_bytes <= old(dest)@.len(),
        ensures
            final(self).wf(),
            final(self)@ == old(self)@.consume(n_bytes as int),
            final(dest)@ == old(self)@.readable().subrange(0, n_bytes as int) + old(
                dest,
            )@.subrange(n_bytes as int, old(dest)@.len() as int),
    {
        if n_bytes == 0 {
            assert(self@.consume(0).window =~= self@.window);
            assert(dest@ =~= self@.readable().subrange(0, 0) + dest@.subrange(
                0,
                dest@.len() as int,
            ));
            return ;
        }
        let size: usize = self.size();
        let start: usize = self.tail % size;
        let to_copy: usize = if n_bytes < size - start {
            n_bytes
        } else {
            size - start
        };
        copy_block(dest, 0, &self.buf.as_slice()[start..start + to_copy]);
        if to_copy < n_bytes {
            // wrap over
            let remaining: usize = n_bytes - to_copy;
            copy_block(dest, to_copy, &self.buf.as_slice()[0..remaining]);
        }
        proof {
            lemma_read_rotates(self.buf@, self.tail as int, n_bytes as int);
        }
        self.tail = self.tail + n_bytes;
        assert(self@.early == old(self)@.early);
        assert(dest@ =~= old(self)@.readable().subrange(0, n_bytes as int) + old(dest)@.subrange(
            n_bytes as int,
            old(dest)@.len() as int,
        ));
    }

    /// Remembers a segment that arrived beyond the head.
    fn push_early_arrival(&mut self, segment: SegmentMeta)
        requires
            old(self).wf(),
            old(self)@.head < segment.seq_no,
            0 < segment.size,
            segment.seq_no + segment.size <= old(self)@.limit(),
        ensures
            final(self).wf(),
            final(self)@ == (RecvBufView {
                early: old(self)@.early.insert(segment),
                ..old(self)@
            }),
    {
        let ghost v = self.early_arrivals@;
        let mut i: usize = self.early_arrivals.len();
        while i > 0 && self.early_arrivals[i - 1].seq_no < segment.seq_no
            invariant
                self.early_arrivals@ == v,
                i <= v.len(),
                descending(v),
                forall|k: int| i <= k < v.len() ==> v[k].seq_no < segment.seq_no,
            decreases i,
        {
            i = i - 1;
        }
        self.early_arrivals.insert(i, segment);
        proof {
            let w = self.early_arrivals@;
            assert(w == v.insert(i as int, segment));
            assert forall|s: SegmentMeta| self@.early.contains(s) == old(self)@.early.insert(
                segment,
            ).contains(s) by {
                if v.contains(s) {
                    let k = choose|k: int| 0 <= k < v.len() && v[k] == s;
                    if k < i {
                        assert(w[k] == s);
                    } else {
                        assert(w[k + 1] == s);
                    }
                }
                if s == segment {
                    assert(w[i as int] == s);
                }
                if w.contains(s) {
                    let k = choose|k: int| 0 <= k < w.len() && w[k] == s;
                    if k < i {
                        assert(v[k] == s);
                    } else if k > i {
                        assert(v[k - 1] == s);
                    }
                }
            }
            assert(self@.early =~= old(self)@.early.insert(segment));
        }
    }

    /// Moves the head over the early arrivals that it has reached.
    fn drain_early_arrivals(&mut self)
        requires
            old(self).buf@.len() == N,
            0 <= old(self)@.tail <= old(self)@.head <= old(self)@.limit(),
            old(self)@.limit() <= usize::MAX,
            descending(old(self).early_arrivals@),
            forall|s: SegmentMeta| #[trigger]
                old(self)@.early.contains(s) ==> 0 < s.size && s.seq_no + s.size <= old(
                    self,
                )@.limit(),
        ensures
            final(self).wf(),
            ({
                let h = frontier(old(self)@.early, old(self)@.head);
                final(self)@ == (RecvBufView {
                    head: h,
                    early: old(self)@.early.filter(|s: SegmentMeta| s.seq_no > h),
                    ..old(self)@
                })
            }),
    {
        let ghost early = self@.early;
        let ghost from = self@.head;
        let ghost limit = self@.limit();
        while self.early_arrivals.len() > 0
            invariant
                self.buf@ == old(self).buf@,
                self.tail == old(self).tail,
                limit <= usize::MAX,
                from <= self.head <= limit,
                descending(self.early_arrivals@),
                forall|p: int| from <= p < self.head ==> covered(early, p),
                forall|s: SegmentMeta| #[trigger]
                    early.contains(s) ==> 0 < s.size && s.seq_no + s.size <= limit && (
                    self.early_arrivals@.contains(s) || s.seq_no + s.size <= self.head),
                forall|s: SegmentMeta| #[trigger]
                    self.early_arrivals@.contains(s) ==> early.contains(s),
                forall|s: SegmentMeta|
                    early.contains(s) && s.seq_no > self.head ==> #[trigger]
                    self.early_arrivals@.contains(s),
            ensures
                forall|s: SegmentMeta| #[trigger]
                    self.early_arrivals@.contains(s) ==> s.seq_no > self.head,
            decreases self.early_arrivals@.len(),
        {
            let ghost v = self.early_arrivals@;
            let last: usize = self.early_arrivals.len() - 1;
            let top: SegmentMeta = self.early_arrivals[last];
            assert(v.contains(v[last as int]));
            if top.seq_no <= self.head {
                let ghost head = self.head;
                let _ = self.early_arrivals.pop();
                let end: usize = top.seq_no + top.size;
                if self.head < end {
                    self.head = end;
                }
                proof {
                    let w = self.early_arrivals@;
                    assert(w == v.drop_last());
                    assert forall|s: SegmentMeta| v.contains(s) implies s == top || w.contains(
                        s,
                    ) by {
                        let k = choose|k: int| 0 <= k < v.len() && v[k] == s;
                        if k < w.len() {
                            assert(w[k] == s);
                        }
                    }
                    assert forall|s: SegmentMeta| w.contains(s) implies v.contains(s) by {
                        let k = choose|k: int| 0 <= k < w.len() && w[k] == s;
                        assert(v[k] == s);
                    }
                    assert forall|p: int| from <= p < self.head implies covered(early, p) by {
                        if p >= head {
                            assert(early.contains(top) && top.covers(p));
                        }
                    }
                }
            } else {
                assert forall|s: SegmentMeta| #[trigger] v.contains(s) implies s.seq_no
                    > self.head by {
                    let k = choose|k: int| 0 <= k < v.len() && v[k] == s;
                    assert(v[k].seq_no >= v[last as int].seq_no);
                }
                break ;
            }
        }
        proof {
            let h = self.head as int;
            assert(!covered(early, h)) by {
                if covered(early, h) {
                    let s = choose|s: SegmentMeta| #[trigger] early.contains(s) && s.covers(h);
                    assert(self.early_arrivals@.contains(s));
                }
            }
            lemma_frontier_unique(early, from, h);
            assert(self@.early =~= early.filter(|s: SegmentMeta| s.seq_no > h));
        }
    }
}

/// The send-side TCP transmission buffer.
#[derive(Debug)]
pub struct SendBuf<const N: usize> {
    pub inner: InnerSendBuf<N>,
    /// The window size that was last sent to us by our remote.
    pub window_size: u16,
    /// Whether application code may still write.
    pub open: bool,
}

impl<const N: usize> SendBuf<N> {
    /// The buffer can be written to: it is not degenerate, and the sequence numbers of
    /// all its bytes fit in a machine word.
    pub open spec fn ready(self) -> bool {
        &&& self.inner.wf()
        &&& 0 < N
        &&& self.inner@.tail + N <= usize::MAX
    }

    /// Constructs a new SendBuf.
    pub fn new(initial_seq_no: usize) -> (r: Self)
        ensures
            r.inner.wf(),
            r.inner@ == (SendBufView { tail: initial_seq_no as int, data: Seq::empty() }),
            clock_read(r.inner.tail_moved_at()),
            r.window_size == window_field(N as int),
            r.open,
    {
        Self {
            inner: InnerSendBuf::new(initial_seq_no),
            window_size: to_window_field(N),
            open: true,
        }
    }

    /// Get the sequence number of the next, to-be-written, byte.
    pub fn head(&self) -> (r: usize)
        requires
            self.inner.wf(),
        ensures
            r == self.inner@.head(),
    {
        self.inner.head
    }

    /// Get the last ACK, i.e., the next byte expected by the remote side.
    pub fn tail(&self) -> (r: usize)
        ensures
            r == self.inner@.tail,
    {
        self.inner.tail
    }

    /// Like tail(), but also returns the elapsed duration since the ACK was
    /// last updated.
    ///
    /// Note that the elapsed duration counts from the last time ACK was
    /// _mutated_ -- repeatedly setting ACK to the current ACK won't affect
    /// this timer. This conveniently ignores duplicated ACKs that may happen
    /// during transmission.
    pub fn get_tail_and_age(&self) -> (r: (usize, Duration))
        ensures
            r.0 == self.inner@.tail,
            clock_measured(self.inner.tail_moved_at(), r.1),
    {
        (self.inner.tail, elapsed_since(&self.inner.last_tail_mutated))
    }

    /// Set the window size that was sent to us by our remote.
    pub fn set_window_size(&mut self, window_size: u16)
        ensures
            *final(self) == (SendBuf { window_size, ..*old(self) }),
    {
        self.window_size = window_size;
    }

    /// Get the window size that was sent to us by our remote.
    pub fn window_size(&self) -> (r: u16)
        ensures
            r == self.window_size,
    {
        self.window_size
    }

    pub fn closed(&self) -> (r: bool)
        ensures
            r == !self.open,
    {
        !self.open
    }

    /// Try to write bytes into the buffer, returning the number of bytes written.
    pub fn write(&mut self, bytes: &[u8]) -> (r: Result<usize, SendBufClosed>)
        requires
            old(self).ready(),
        ensures
            final(self).inner.wf(),
            final(self).window_size == old(self).window_size,
            final(self).open == old(self).open,
            final(self).inner.tail_moved_at() == old(self).inner.tail_moved_at(),
            match r {
                Ok(written) => {
                    &&& old(self).open
                    &&& written == smaller(
                        N - old(self).inner@.data.len(),
                        bytes@.len() as int,
                    )
                    &&& final(self).inner@ == old(self).inner@.push(
                        bytes@.subrange(0, written as int),
                    )
                },
                Err(_) => !old(self).open && *final(self) == *old(self),
            },
    {
        if !self.open {
            return Err(SendBufClosed);
        }
        Ok(self.inner.write(bytes))
    }

    /// Writes on from the byte at `curr`, as far as there is room. The result is how far this
    /// came, where bytes are left, and to go on takes another call once the remote has consumed
    /// data; or nothing, where all bytes have been written.
    ///
    /// Room frees up only when the remote decides to consume data, so to write a
    /// large amount of bytes can take a _long_ time.
    pub fn write_all(&mut self, bytes: &[u8], curr: usize) -> (r: Result<
        Option<usize>,
        SendBufClosed,
    >)
        requires
            old(self).ready(),
            curr <= bytes@.len(),
        ensures
            final(self).inner.wf(),
            final(self).window_size == old(self).window_size,
            final(self).open == old(self).open,
            final(self).inner.tail_moved_at() == old(self).inner.tail_moved_at(),
            match r {
                Ok(rest) => {
                    let end = curr + smaller(
                        N - old(self).inner@.data.len(),
                        bytes@.len() - curr,
                    );
                    if bytes@.len() == 0 {
                        rest is None && *final(self) == *old(self)
                    } else {
                        &&& old(self).open
                        &&& final(self).inner@ == old(self).inner@.push(
                            bytes@.subrange(curr as int, end),
                        )
                        &&& rest == (if end < bytes@.len() {
                            Some(end as usize)
                        } else {
                            None
                        })
                    }
                },
                Err(_) => bytes@.len() > 0 && !old(self).open && *final(self) == *old(self),
            },
    {
        if bytes.len() == 0 {
            return Ok(None);
        }
        if !self.open {
            return Err(SendBufClosed);
        }
        let rest: &[u8] = &bytes[curr..bytes.len()];
        let written: usize = self.inner.write(rest);
        let end: usize = curr + written;
        assert(rest@.subrange(0, written as int) =~= bytes@.subrange(curr as int, end as int));
        if end < bytes.len() {
            Ok(Some(end))
        } else {
            Ok(None)
        }
    }

    /// Advances the tail pointer to the provided sequence number, and says whether it moved.
    ///
    /// Data up to but not including `seq_no` are discarded.
    ///
    /// Called when handling a new TCP header, which provides the latest ACK.
    pub fn set_tail(&mut self, seq_no: usize) -> (r: Result<bool, SetTailError>)
        requires
            old(self).inner.wf(),
        ensures
            final(self).inner.wf(),
            final(self).window_size == old(self).window_size,
            final(self).open == old(self).open,
            match r {
                Ok(updated) => {
                    &&& old(self).inner@.tail <= seq_no <= old(self).inner@.head()
                    &&& updated == (seq_no != old(self).inner@.tail)
                    &&& final(self).inner@ == old(self).inner@.advance(seq_no as int)
                    &&& updated ==> clock_read(final(self).inner.tail_moved_at())
                    &&& !updated ==> *final(self) == *old(self)
                },
                Err(SetTailError::TooBig) => {
                    &&& seq_no > old(self).inner@.head()
                    &&& *final(self) == *old(self)
                },
                Err(SetTailError::LowerThanCurrent) => {
                    &&& seq_no < old(self).inner@.tail
                    &&& *final(self) == *old(self)
                },
            },
    {
        self.inner.set_tail(seq_no)
    }

    /// Fills the passed-in buffer with unconsumed content from the front of the
    /// internal buffer, where there is enough of it, and says whether there was.
    ///
    /// Slicing unconsumed content does not consume it (set_tail() does): a caller that waits
    /// for more than fits can wait for a writer that waits for room.
    pub fn slice_front(&self, buf: &mut [u8]) -> (r: bool)
        requires
            self.inner.wf(),
            0 < N,
        ensures
            r == (old(buf)@.len() <= self.inner@.data.len()),
            final(buf)@ == (if r {
                self.inner@.data.subrange(0, old(buf)@.len() as int)
            } else {
                old(buf)@
            }),
    {
        let unconsumed = self.inner.unconsumed();
        match unconsumed.slice_front(buf.len()) {
            Ok(slice) => {
                let _ = slice.copy_into_buf(buf);
                assert(buf@ =~= slice@);
                true
            },
            Err(_) => false,
        }
    }

    /// Try to fill the passed-in buffer with data starting at a sequence number.
    ///
    /// The function succeeds when `start_seq_no + buf.len()` is less than or equal
    /// to the head sequence number, and `start_seq_no` is greater or equal to
    /// the tail sequence number.
    ///
    /// On success, `buf` is filled and the function returns how many bytes can
    /// be sliced after the slice contained in `buf`. On error, `buf` is not
    /// modified, and the error contains the number of unconsumed bytes starting
    /// at `start_seq_no`.
    pub fn try_slice(&self, start_seq_no: usize, buf: &mut [u8]) -> (r: Result<usize, SliceError>)
        requires
            self.inner.wf(),
            0 < N,
        ensures
            match r {
                Ok(remaining) => {
                    let from = start_seq_no - self.inner@.tail;
                    &&& self.inner@.tail <= start_seq_no
                    &&& start_seq_no + old(buf)@.len() <= self.inner@.head()
                    &&& remaining == self.inner@.head() - start_seq_no - old(buf)@.len()
                    &&& final(buf)@ == self.inner@.data.subrange(from, from + old(buf)@.len())
                },
                Err(SliceError::StartSeqTooLow(tail)) => {
                    &&& start_seq_no < self.inner@.tail
                    &&& tail == self.inner@.tail
                    &&& final(buf)@ == old(buf)@
                },
                Err(SliceError::OutOfRange(n)) => {
                    &&& self.inner@.tail <= start_seq_no
                    &&& start_seq_no + old(buf)@.len() > self.inner@.head()
                    &&& n == (if start_seq_no > self.inner@.head() {
                        0
                    } else {
                        self.inner@.head() - start_seq_no
                    })
                    &&& final(buf)@ == old(buf)@
                },
            },
    {
        let unconsumed = self.inner.unconsumed();
        if start_seq_no < self.inner.tail {
            return Err(SliceError::StartSeqTooLow(self.inner.tail));
        }
        let offset: usize = start_seq_no - self.inner.tail;
        match unconsumed.slice(offset, buf.len()) {
            Ok(slice) => {
                let _ = slice.copy_into_buf(buf);
                assert(buf@ =~= slice@);
                Ok(self.inner.head - start_seq_no - buf.len())
            },
            Err(e) => Err(e),
        }
    }

    /// Whether there is data available at `seq_no`, or it is to be waited for.
    pub fn wait_for_new_data(&self, seq_no: usize) -> (r: bool)
        requires
            self.inner.wf(),
        ensures
            r == (self.inner@.head() > seq_no),
    {
        self.inner.head > seq_no
    }

    /// When a buffer is closed, whether all of its content has been consumed.
    ///
    /// Returns the final sequence number of the buffer, which is both the head
    /// and the tail of the buffer; or nothing, where that is to be waited for.
    pub fn wait_for_empty(&self) -> (r: Option<usize>)
        requires
            self.inner.wf(),
            !self.open,
        ensures
            match r {
                Some(seq_no) => {
                    &&& self.inner@.data.len() == 0
                    &&& seq_no == self.inner@.head()
                    &&& seq_no == self.inner@.tail
                },
                None => self.inner@.data.len() > 0,
            },
    {
        if self.inner.read_remaining_size() == 0 {
            Some(self.inner.head)
        } else {
            None
        }
    }

    /// Ends writing. A buffer is closed once.
    pub fn close(&mut self) -> (r: Result<(), SendBufClosed>)
        requires
            old(self).open,
        ensures
            r is Ok,
            *final(self) == (SendBuf { open: false, ..*old(self) }),
    {
        if self.open {
            self.open = false;
            Ok(())
        } else {
            Err(SendBufClosed)
        }
    }
}

/// The receiving-side of TCP transmission buffer.
#[derive(Debug)]
pub struct RecvBuf<const N: usize> {
    pub inner: InnerRecvBuf<N>,
    /// Whether the remote may still send.
    pub open: bool,
}

impl<const N: usize> RecvBuf<N> {
    /// The buffer can be written to: it is not degenerate, and the sequence numbers of
    /// all its bytes fit in a machine word.
    pub open spec fn ready(self) -> bool {
        &&& self.inner.wf()
        &&& 0 < N
        &&& self.inner@.tail + N <= usize::MAX
    }

    /// Constructs a new RecvBuf.
    pub fn new(starting_seq_no: usize) -> (r: Self)
        ensures
            r.inner.wf(),
            r.inner@ == (RecvBufView {
                tail: starting_seq_no as int,
                head: starting_seq_no as int,
                window: Seq::new(N as nat, |k: int| 0u8),
                early: Set::empty(),
            }),
            r.open,
    {
        Self { inner: InnerRecvBuf::new(starting_seq_no), open: true }
    }

    /// Get the next sequence number expected to be sent by the sender.
    ///
    /// Note that `head` intentionally ignores early arrivals. Packets with later
    /// sequence numbers may or may not have arrived, but the packets are only
    /// consecutive up to the sequence number returned by this method.
    pub fn head(&self) -> (r: usize)
        ensures
            r == self.inner@.head,
    {
        self.inner.head
    }

    /// Get the sequence number of the next byte to be consumed by the
    /// application layer.
    pub fn tail(&self) -> (r: usize)
        ensures
            r == self.inner@.tail,
    {
        self.inner.tail
    }

    /// Get the window size to be advertized to remote.
    ///
    /// This is the allocated buffer size minus unconsumed, consecutive bytes.
    pub fn window_size(&self) -> (r: usize)
        requires
            self.inner.wf(),
            self.inner@.tail + N <= usize::MAX,
        ensures
            r == N - self.inner@.readable().len(),
    {
        proof {
            self.inner.lemma_wf();
        }
        self.inner.write_remaining_size()
    }

    /// Ends receiving.
    pub fn close(&mut self) -> (r: Result<(), RecvBufClosed>)
        ensures
            *final(self) == (RecvBuf { open: false, ..*old(self) }),
            r is Ok <==> old(self).open,
    {
        if self.open {
            self.open = false;
            Ok(())
        } else {
            Err(RecvBufClosed)
        }
    }

    pub fn closed(&self) -> (r: bool)
        ensures
            r == !self.open,
    {
        !self.open
    }

    /// Try to fill the provided buffer.
    ///
    /// The method returns a slice of the written bytes, which will be a subslice
    /// of the provided buffer.
    ///
    /// Filling the buffer simultaneously advances the buffer tail: bytes, once
    /// consumed, are discarded from RecvBuf.
    pub fn try_fill<'a>(&mut self, dest: &'a mut [u8]) -> (r: Result<&'a [u8], RecvBufClosed>)
        requires
            old(self).inner.wf(),
        ensures
            final(self).inner.wf(),
            final(self).open == old(self).open,
            match r {
                Ok(consumed) => {
                    let n = smaller(
                        old(self).inner@.readable().len() as int,
                        old(dest)@.len() as int,
                    );
                    &&& old(self).open
                    &&& consumed@ == old(self).inner@.readable().subrange(0, n)
                    &&& final(self).inner@ == old(self).inner@.consume(n)
                    &&& final(dest)@ == consumed@ + old(dest)@.subrange(n, old(dest)@.len() as int)
                },
                Err(_) => {
                    &&& !old(self).open
                    &&& *final(self) == *old(self)
                    &&& final(dest)@ == old(dest)@
                },
            },
    {
        if !self.open {
            return Err(RecvBufClosed);
        }
        Ok(self.inner.try_fill(dest))
    }

    /// Try to write some bytes into the `dest` buffer, returning the number of
    /// bytes written, or nothing where there are none yet and they are to be waited for.
    pub fn try_fill_some(&mut self, dest: &mut [u8]) -> (r: Result<Option<usize>, RecvBufClosed>)
        requires
            old(self).inner.wf(),
            old(dest)@.len() > 0,
        ensures
            final(self).inner.wf(),
            final(self).open == old(self).open,
            match r {
                Ok(consumed) => {
                    let n = smaller(
                        old(self).inner@.readable().len() as int,
                        old(dest)@.len() as int,
                    );
                    &&& old(self).open
                    &&& consumed == (if n > 0 {
                        Some(n as usize)
                    } else {
                        None
                    })
                    &&& final(self).inner@ == old(self).inner@.consume(n)
                    &&& final(dest)@ == old(self).inner@.readable().subrange(0, n) + old(
                        dest,
                    )@.subrange(n, old(dest)@.len() as int)
                },
                Err(_) => {
                    &&& !old(self).open
                    &&& *final(self) == *old(self)
                    &&& final(dest)@ == old(dest)@
                },
            },
    {
        if !self.open {
            return Err(RecvBufClosed);
        }
        let consumed = self.inner.try_fill(dest);
        let n: usize = consumed.len();
        if n > 0 {
            Ok(Some(n))
        } else {
            Ok(None)
        }
    }

    /// Fills the provided buffer on from `curr`, with what there is. The result is how far
    /// this came, where the buffer is not full yet, and to go on takes another call once more
    /// data has arrived; or nothing, where it is full.
    ///
    /// Filling the buffer simultaneously advances the buffer tail: bytes, once
    /// consumed, are discarded from RecvBuf.
    pub fn fill(&mut self, dest: &mut [u8], curr: usize) -> (r: Result<Option<usize>, FillError>)
        requires
            old(self).inner.wf(),
            curr <= old(dest)@.len(),
        ensures
            final(self).inner.wf(),
            final(self).open == old(self).open,
            ({
                let n = smaller(
                    old(self).inner@.readable().len() as int,
                    old(dest)@.len() - curr,
                );
                &&& final(self).inner@ == old(self).inner@.consume(n)
                &&& final(dest)@ == old(dest)@.subrange(0, curr as int)
                    + old(self).inner@.readable().subrange(0, n) + old(dest)@.subrange(
                    curr + n,
                    old(dest)@.len() as int,
                )
                &&& match r {
                    Ok(None) => curr + n == old(dest)@.len(),
                    Ok(Some(end)) => end == curr + n && end < old(dest)@.len() && old(self).open,
                    Err(FillError::Closed(end)) => end == curr + n && end < old(dest)@.len()
                        && !old(self).open,
                }
            }),
    {
        let ghost before = dest@;
        if dest.len() == 0 {
            proof {
                self.inner.lemma_wf();
                assert(self.inner@.consume(0).window =~= self.inner@.window);
                assert(dest@ =~= before.subrange(0, 0) + self.inner@.readable().subrange(0, 0)
                    + before.subrange(0, 0));
            }
            return Ok(None);
        }
        let total: usize = dest.len();
        let (_, rest) = dest.split_at_mut(curr);
        let consumed = self.inner.try_fill(rest);
        let end: usize = curr + consumed.len();
        assert(dest@ =~= before.subrange(0, curr as int) + old(self).inner@.readable().subrange(
            0,
            end - curr,
        ) + before.subrange(end as int, before.len() as int));
        if end < total {
            if !self.open {
                // will not receive any more bytes from the remote
                return Err(FillError::Closed(end));
            }
            Ok(Some(end))
        } else {
            Ok(None)
        }
    }

    /// Try to write the provided bytes into RecvBuf, starting at the provided
    /// sequence number.
    ///
    /// To account for early arrivals, the sequence number to start writing at
    /// need not be the head of the buffer.
    ///
    /// If `seq_no != head`, then the buffer head is not updated.
    ///
    /// If `seq_no == head`, then the buffer head is updated by at least the
    /// size of `bytes` (if this write does not fail for other reasons). This
    /// write will consume the early arrival segments that are contiguous with
    /// this write, advancing the head pointer to the furthest extent.
    pub fn try_write(&mut self, seq_no: usize, bytes: &[u8]) -> (r: Result<(), WriteRangeError>)
        requires
            old(self).ready(),
            seq_no + bytes@.len() <= usize::MAX,
        ensures
            final(self).inner.wf(),
            final(self).open == old(self).open,
            match r {
                Ok(_) => {
                    &&& old(self).inner@.writable(seq_no as int, bytes@.len() as int)
                    &&& final(self).inner@ == old(self).inner@.write(seq_no, bytes@)
                },
                Err(WriteRangeError::SeqNoTooSmall(min)) => {
                    &&& seq_no < old(self).inner@.head
                    &&& min == old(self).inner@.head
                    &&& *final(self) == *old(self)
                },
                Err(WriteRangeError::ExceedBuffer(max)) => {
                    &&& seq_no >= old(self).inner@.head
                    &&& seq_no + bytes@.len() > old(self).inner@.limit()
                    &&& max == old(self).inner@.limit()
                    &&& *final(self) == *old(self)
                },
            },
    {
        self.inner.write(seq_no, bytes)
    }

    /// Like `RecvBuf::try_write()`, but a lack of room is no error: the result is whether the
    /// bytes were written, or are to be written again once the application layer has consumed
    /// content.
    ///
    /// Since we do not know when the application layer will consume, that can take
    /// an arbitrary amount of time.
    pub fn write(&mut self, seq_no: usize, bytes: &[u8]) -> (r: Result<bool, WriteRangeError>)
        requires
            old(self).ready(),
            seq_no + bytes@.len() <= usize::MAX,
        ensures
            final(self).inner.wf(),
            final(self).open == old(self).open,
            match r {
                Ok(true) => {
                    &&& old(self).inner@.writable(seq_no as int, bytes@.len() as int)
                    &&& final(self).inner@ == old(self).inner@.write(seq_no, bytes@)
                },
                Ok(false) => {
                    &&& seq_no >= old(self).inner@.head
                    &&& seq_no + bytes@.len() > old(self).inner@.limit()
                    &&& *final(self) == *old(self)
                },
                Err(e) => {
                    &&& seq_no < old(self).inner@.head
                    &&& e == WriteRangeError::SeqNoTooSmall(old(self).inner@.head as usize)
                    &&& *final(self) == *old(self)
                },
            },
    {
        match self.inner.write(seq_no, bytes) {
            Ok(_) => Ok(true),
            Err(WriteRangeError::SeqNoTooSmall(min)) => Err(WriteRangeError::SeqNoTooSmall(min)),
            Err(WriteRangeError::ExceedBuffer(_)) => Ok(false),
        }
    }
}

/// A send buffer of the default size.
pub fn make_default_sendbuf(starting_seq_no: usize) -> (r: SendBuf<TCP_DEFAULT_WINDOW_SZ>)
    ensures
        r.inner.wf(),
        r.inner@ == (SendBufView { tail: starting_seq_no as int, data: Seq::empty() }),
        r.window_size == window_field(TCP_DEFAULT_WINDOW_SZ as int),
        r.open,
{
    SendBuf::<TCP_DEFAULT_WINDOW_SZ>::new(starting_seq_no)
}

/// A receive buffer of the default size.
pub fn make_default_recvbuf(starting_seq_no: usize) -> (r: RecvBuf<TCP_DEFAULT_WINDOW_SZ>)
    ensures
        r.inner.wf(),
        r.inner@ == (RecvBufView {
            tail: starting_seq_no as int,
            head: starting_seq_no as int,
            window: Seq::new(TCP_DEFAULT_WINDOW_SZ as nat, |k: int| 0u8),
            early: Set::empty(),
        }),
        r.open,
{
    RecvBuf::<TCP_DEFAULT_WINDOW_SZ>::new(starting_seq_no)
}

} // verus!
