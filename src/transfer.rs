//! The chunked transfer engine. The file is cut into chunks of `chunk_size`
//! bytes (the last may be shorter). The sender keeps at most a window of
//! chunks outstanding and retransmits lost ones; the receiver reassembles
//! them and acknowledges cumulatively.
//!
//! Loss accounting: a chunk that needed a retransmission counts as lossy
//! once. When the lossy chunks exceed `loss_threshold` percent of all chunks
//! the transfer fails with `LossTooHigh`; exactly reaching the threshold is
//! still tolerated. A chunk lost more often than its retry budget allows
//! can never be delivered, so it fails the transfer the same way.
use vstd::prelude::*;

use crate::net::{be32, be32_at, lemma_be32_round_trip};
use crate::FTLTunnelError;

verus! {

/// How many times a sender retransmits one chunk before giving it up.
pub const CHUNK_RETRY_BUDGET: u32 = 3;

/// The number of chunks of `chunk_size` bytes that `file_size` bytes make.
pub open spec fn chunk_count_spec(file_size: int, chunk_size: int) -> int {
    file_size / chunk_size + if file_size % chunk_size == 0 {
        0int
    } else {
        1int
    }
}

/// The number of chunks of `chunk_size` bytes that `file_size` bytes make,
/// the last one possibly shorter.
pub fn chunk_count(file_size: u64, chunk_size: u16) -> (r: u64)
    requires
        chunk_size > 0,
    ensures
        r == chunk_count_spec(file_size as int, chunk_size as int),
        r <= file_size,
{
    let whole = file_size / chunk_size as u64;
    if file_size % chunk_size as u64 == 0 {
        assert(whole <= file_size) by (nonlinear_arith)
            requires
                whole == file_size / chunk_size as u64,
                chunk_size > 0,
        ;
        whole
    } else {
        assert(whole < file_size) by (nonlinear_arith)
            requires
                whole == file_size / chunk_size as u64,
                file_size % chunk_size as u64 != 0,
                chunk_size > 0,
        ;
        whole + 1
    }
}

/// Where a transfer stands.
#[derive(Debug, Clone, Copy, PartialEq, Eq)]
pub enum TransferStatus {
    InProgress,
    /// Every chunk has been acknowledged.
    Done,
    /// Too many chunks were lost, or one was lost beyond its retry budget.
    LossTooHigh,
}

/// The number of chunks that needed at least one retransmission.
pub open spec fn lossy_count(retries: Seq<u32>) -> nat
    decreases retries.len(),
{
    if retries.len() == 0 {
        0
    } else {
        lossy_count(retries.drop_last()) + if retries.last() > 0 {
            1nat
        } else {
            0nat
        }
    }
}

proof fn lemma_lossy_update(s: Seq<u32>, i: int, v: u32)
    requires
        0 <= i < s.len(),
        v > 0,
    ensures
        lossy_count(s.update(i, v)) == lossy_count(s) + if s[i] == 0 {
            1nat
        } else {
            0nat
        },
    decreases s.len(),
{
    if i == s.len() - 1 {
        assert(s.update(i, v).drop_last() =~= s.drop_last());
    } else {
        lemma_lossy_update(s.drop_last(), i, v);
        assert(s.update(i, v).drop_last() =~= s.drop_last().update(i, v));
    }
}

proof fn lemma_lossy_zeros(n: nat)
    ensures
        lossy_count(Seq::new(n, |i: int| 0u32)) == 0,
    decreases n,
{
    if n > 0 {
        lemma_lossy_zeros((n - 1) as nat);
        assert(Seq::new(n, |i: int| 0u32).drop_last() =~= Seq::new((n - 1) as nat, |i: int| 0u32));
    }
}

/// What a sender's window holds.
pub struct SendWindowView {
    pub total: usize,
    pub window: u32,
    pub loss_threshold: u8,
    pub retry_budget: u32,
    /// Chunks below this index are acknowledged.
    pub acked: usize,
    /// Chunks below this index have been sent at least once.
    pub next: usize,
    /// Retransmissions of each chunk.
    pub retries: Seq<u32>,
    pub status: TransferStatus,
}

impl SendWindowView {
    /// The lossy chunks exceed `loss_threshold` percent of all chunks.
    pub open spec fn loss_exceeded(self) -> bool {
        lossy_count(self.retries) * 100 > self.loss_threshold as nat * self.total as nat
    }

    /// Whether a loss report for chunk `index` is taken into account: the
    /// transfer goes on and the chunk is outstanding.
    pub open spec fn loss_applies(self, index: int) -> bool {
        self.status is InProgress && self.acked <= index < self.next
    }

    /// The window after one more retransmission of chunk `index`, before
    /// the threshold is checked.
    pub open spec fn retried(self, index: int) -> SendWindowView {
        SendWindowView {
            retries: self.retries.update(index, (self.retries[index] + 1) as u32),
            ..self
        }
    }

    /// The window after chunk `index` is reported lost.
    pub open spec fn after_loss(self, index: int) -> SendWindowView {
        if !self.loss_applies(index) {
            self
        } else if self.retries[index] >= self.retry_budget {
            SendWindowView { status: TransferStatus::LossTooHigh, ..self }
        } else if self.retried(index).loss_exceeded() {
            SendWindowView { status: TransferStatus::LossTooHigh, ..self.retried(index) }
        } else {
            self.retried(index)
        }
    }

    /// The chunk to retransmit after chunk `index` is reported lost.
    pub open spec fn loss_reply(self, index: int) -> Option<usize> {
        if self.loss_applies(index) && self.retries[index] < self.retry_budget
            && !self.retried(index).loss_exceeded() {
            Some(index as usize)
        } else {
            None
        }
    }

    pub open spec fn wf(self) -> bool {
        &&& self.acked <= self.next <= self.total
        &&& self.next - self.acked <= self.window
        &&& self.retries.len() == self.total
        &&& self.status is Done ==> self.acked == self.total && !self.loss_exceeded()
        &&& self.loss_exceeded() ==> self.status is LossTooHigh
        &&& self.status is InProgress ==> self.acked < self.total
        &&& self.status is InProgress ==> forall|i: int|
            0 <= i < self.total ==> self.retries[i] <= self.retry_budget
    }
}

/// The sending side of a transfer.
pub struct SendWindow {
    total: usize,
    window: u32,
    loss_threshold: u8,
    retry_budget: u32,
    acked: usize,
    next: usize,
    retries: Vec<u32>,
    lossy: usize,
    status: TransferStatus,
}

impl View for SendWindow {
    type V = SendWindowView;

    closed spec fn view(&self) -> SendWindowView {
        SendWindowView {
            total: self.total,
            window: self.window,
            loss_threshold: self.loss_threshold,
            retry_budget: self.retry_budget,
            acked: self.acked,
            next: self.next,
            retries: self.retries@,
            status: self.status,
        }
    }
}

impl SendWindow {
    spec fn inv(&self) -> bool {
        &&& self@.wf()
        &&& self.lossy == lossy_count(self.retries@)
    }

    /// The window's invariant.
    pub closed spec fn wf(&self) -> bool {
        self.inv()
    }

    /// A transfer of `total` chunks with at most `window` outstanding; fails
    /// with `MissingData` on an empty window. A transfer of no chunks is done
    /// at once.
    pub fn new(total: usize, window: u32, loss_threshold: u8, retry_budget: u32) -> (r: Result<
        Self,
        FTLTunnelError,
    >)
        ensures
            window > 0 <==> r is Ok,
            r is Err ==> r == Err::<Self, FTLTunnelError>(FTLTunnelError::MissingData),
            r matches Ok(w) ==> w.wf() && w@ == (SendWindowView {
                total,
                window,
                loss_threshold,
                retry_budget,
                acked: 0,
                next: 0,
                retries: Seq::new(total as nat, |i: int| 0u32),
                status: if total == 0 {
                    TransferStatus::Done
                } else {
                    TransferStatus::InProgress
                },
            }),
    {
        if window == 0 {
            return Err(FTLTunnelError::MissingData);
        }
        let retries: Vec<u32> = vec![0u32; total];
        proof {
            assert(retries@ =~= Seq::new(total as nat, |i: int| 0u32));
            lemma_lossy_zeros(total as nat);
        }
        let status = if total == 0 {
            TransferStatus::Done
        } else {
            TransferStatus::InProgress
        };
        Ok(
            SendWindow {
                total,
                window,
                loss_threshold,
                retry_budget,
                acked: 0,
                next: 0,
                retries,
                lossy: 0,
                status,
            },
        )
    }

    /// Where the transfer stands.
    pub fn status(&self) -> (r: TransferStatus)
        ensures
            r == self@.status,
    {
        self.status
    }

    /// How many chunks are acknowledged, from the first on.
    pub fn acked(&self) -> (r: usize)
        ensures
            r == self@.acked,
    {
        self.acked
    }

    /// How many chunks needed a retransmission.
    pub fn lossy_chunks(&self) -> (r: usize)
        requires
            self.wf(),
        ensures
            r == lossy_count(self@.retries),
    {
        self.lossy
    }

    /// The next chunk to send for the first time, if the transfer goes on,
    /// chunks remain and the window has room.
    pub fn next_to_send(&mut self) -> (r: Option<usize>)
        requires
            old(self).wf(),
        ensures
            final(self).wf(),
            ({
                let o = old(self)@;
                if o.status is InProgress && o.next < o.total && o.next - o.acked < o.window {
                    r == Some(o.next) && final(self)@ == (SendWindowView {
                        next: (o.next + 1) as usize,
                        ..o
                    })
                } else {
                    r is None && final(self)@ == o
                }
            }),
    {
        if matches!(self.status, TransferStatus::InProgress) && self.next < self.total && self.next
            - self.acked < self.window as usize {
            let i = self.next;
            self.next = self.next + 1;
            Some(i)
        } else {
            None
        }
    }

    /// A cumulative acknowledgment: the receiver holds every chunk below
    /// `received`. The window slides forward; when every chunk is held the
    /// transfer is done. An acknowledgment that moves nothing forward, or
    /// that claims chunks never sent, is ignored.
    pub fn on_ack(&mut self, received: usize)
        requires
            old(self).wf(),
        ensures
            final(self).wf(),
            ({
                let o = old(self)@;
                if o.status is InProgress && o.acked < received <= o.next {
                    final(self)@ == (SendWindowView {
                        acked: received,
                        status: if received == o.total {
                            TransferStatus::Done
                        } else {
                            TransferStatus::InProgress
                        },
                        ..o
                    })
                } else {
                    final(self)@ == o
                }
            }),
    {
        if matches!(self.status, TransferStatus::InProgress) && self.acked < received && received
            <= self.next {
            self.acked = received;
            if received == self.total {
                self.status = TransferStatus::Done;
            }
        }
    }

    /// Chunk `index` was reported lost (a negative acknowledgment, or its
    /// timeout). Returns the chunk to retransmit, or `None` when the report
    /// is ignored or the transfer has just failed: the chunk had used up its
    /// retry budget, or the lossy chunks now exceed the threshold.
    pub fn on_loss(&mut self, index: usize) -> (r: Option<usize>)
        requires
            old(self).wf(),
        ensures
            final(self).wf(),
            r == old(self)@.loss_reply(index as int),
            final(self)@ == old(self)@.after_loss(index as int),
    {
        if !(matches!(self.status, TransferStatus::InProgress) && self.acked <= index && index
            < self.next) {
            return None;
        }
        let count = self.retries[index];
        if count >= self.retry_budget {
            self.status = TransferStatus::LossTooHigh;
            return None;
        }
        proof {
            lemma_lossy_update(self.retries@, index as int, (count + 1) as u32);
            lemma_lossy_bound(self.retries@.update(index as int, (count + 1) as u32));
        }
        if count == 0 {
            self.lossy = self.lossy + 1;
        }
        self.retries.set(index, count + 1);
        let threshold = self.loss_threshold as u128;
        let total = self.total as u128;
        assert(threshold * total <= 255 * 0x1_0000_0000_0000_0000) by (nonlinear_arith)
            requires
                threshold <= 255,
                total <= 0x1_0000_0000_0000_0000,
        ;
        if (self.lossy as u128) * 100 > threshold * total {
            self.status = TransferStatus::LossTooHigh;
            return None;
        }
        Some(index)
    }
}

impl SendWindow {
    /// The read timeout elapsed with no acknowledgment: the lowest
    /// outstanding chunk counts as lost, exactly as if it had been reported
    /// lost.
    pub fn on_timeout(&mut self) -> (r: Option<usize>)
        requires
            old(self).wf(),
        ensures
            final(self).wf(),
            r == old(self)@.loss_reply(old(self)@.acked as int),
            final(self)@ == old(self)@.after_loss(old(self)@.acked as int),
    {
        let lowest = self.acked;
        self.on_loss(lowest)
    }
}

/// Runs a whole transfer of `drops.len()` chunks, one chunk outstanding at a
/// time, over a channel that loses chunk `i` exactly `drops[i]` times before
/// delivering it. The transfer always ends. It fails with `LossTooHigh`
/// whenever the chunks lost at least once exceed `loss_threshold` percent of
/// all chunks, and whenever some chunk is lost more often than the retry
/// budget allows; otherwise it is done.
pub fn run_over_lossy_channel(drops: &Vec<u32>, loss_threshold: u8, retry_budget: u32) -> (r:
    TransferStatus)
    ensures
        r is Done || r is LossTooHigh,
        lossy_count(drops@) * 100 > loss_threshold as nat * drops@.len() ==> r is LossTooHigh,
        (exists|i: int| 0 <= i < drops@.len() && drops@[i] > retry_budget) ==> r is LossTooHigh,
        r is Done ==> lossy_count(drops@) * 100 <= loss_threshold as nat * drops@.len() && forall|
            i: int,
        | 0 <= i < drops@.len() ==> drops@[i] <= retry_budget,
{
    let n = drops.len();
    let mut w = match SendWindow::new(n, 1, loss_threshold, retry_budget) {
        Ok(w) => w,
        Err(_) => return TransferStatus::LossTooHigh,
    };
    let mut lost: u32 = 0;
    while matches!(w.status(), TransferStatus::InProgress)
        invariant
            w.wf(),
            w@.total == n,
            n == drops@.len(),
            w@.window == 1,
            w@.loss_threshold == loss_threshold,
            w@.retry_budget == retry_budget,
            forall|i: int| 0 <= i < w@.acked ==> w@.retries[i] == drops@[i],
            forall|i: int| w@.acked < i < n ==> w@.retries[i] == 0,
            forall|i: int| 0 <= i < n ==> w@.retries[i] <= retry_budget,
            w@.status is InProgress ==> w@.retries[w@.acked as int] == lost && lost <= drops@[w@.acked as int],
            w@.status is InProgress ==> w@.next == w@.acked || w@.next == w@.acked + 1,
            !(w@.status is InProgress) ==> w@.next <= n,
        decreases n - w@.acked, drops@[w@.acked as int] - lost,
    {
        let _ = w.next_to_send();
        let i = w.acked();
        if lost < drops[i] {
            let _ = w.on_loss(i);
            lost = lost + 1;
        } else {
            w.on_ack(i + 1);
            lost = 0;
        }
    }
    proof {
        if w@.status is Done {
            assert(w@.retries =~= drops@);
        }
    }
    w.status()
}

proof fn lemma_lossy_bound(s: Seq<u32>)
    ensures
        lossy_count(s) <= s.len(),
    decreases s.len(),
{
    if s.len() > 0 {
        lemma_lossy_bound(s.drop_last());
    }
}

/// Loss-threshold termination: in every state that a sender's window can
/// reach, once the lossy chunks exceed the threshold the transfer has
/// failed with `LossTooHigh`, and it is never done.
pub proof fn lemma_excess_loss_fails(w: SendWindow)
    requires
        w.wf(),
        w@.loss_exceeded(),
    ensures
        w@.status is LossTooHigh,
        !(w@.status is Done),
{
}

/// A sender's window that reports `Done` has every chunk acknowledged and
/// its loss within the threshold.
pub proof fn lemma_done_is_complete(w: SendWindow)
    requires
        w.wf(),
        w@.status is Done,
    ensures
        w@.acked == w@.total,
        lossy_count(w@.retries) * 100 <= w@.loss_threshold as nat * w@.total as nat,
{
}

proof fn lemma_chunk_in_file(index: int, file_size: int, chunk_size: int)
    requires
        chunk_size > 0,
        file_size >= 0,
        0 <= index < chunk_count_spec(file_size, chunk_size),
    ensures
        index * chunk_size < file_size,
{
    let q = file_size / chunk_size;
    let m = file_size % chunk_size;
    assert(file_size == q * chunk_size + m && 0 <= m < chunk_size) by (nonlinear_arith)
        requires
            chunk_size > 0,
            q == file_size / chunk_size,
            m == file_size % chunk_size,
    ;
    if index < q {
        assert(index * chunk_size + chunk_size <= q * chunk_size) by (nonlinear_arith)
            requires
                index < q,
                chunk_size > 0,
        ;
    } else {
        assert(index == q && m != 0);
    }
}

proof fn lemma_chunks_disjoint(v: ReceiveWindowView, i: int, j: int)
    requires
        v.chunk_size > 0,
        0 <= i,
        0 <= j,
        i != j,
        v.offset(i) < v.data.len(),
        v.offset(j) < v.data.len(),
    ensures
        v.offset(i) + v.chunk_len(i) <= v.offset(j) || v.offset(j) + v.chunk_len(j) <= v.offset(i),
        0 <= v.chunk_len(i) <= v.chunk_size,
{
    let c = v.chunk_size as int;
    if i < j {
        assert(i * c + c <= j * c) by (nonlinear_arith)
            requires
                i < j,
                c > 0,
        ;
    } else {
        assert(j * c + c <= i * c) by (nonlinear_arith)
            requires
                j < i,
                c > 0,
        ;
    }
}

/// What a receiver's window holds.
pub struct ReceiveWindowView {
    pub chunk_size: u16,
    pub window: u32,
    pub total: usize,
    /// Which chunks have arrived.
    pub received: Seq<bool>,
    /// Every chunk below this index has arrived.
    pub contiguous: usize,
    /// The file as reassembled so far.
    pub data: Seq<u8>,
    /// The contents of each chunk taken so far, by index.
    pub chunks: Map<int, Seq<u8>>,
}

impl ReceiveWindowView {
    /// Where chunk `index` starts in the file.
    pub open spec fn offset(self, index: int) -> int {
        index * self.chunk_size as int
    }

    /// The length of chunk `index`: `chunk_size`, but for a shorter last one.
    pub open spec fn chunk_len(self, index: int) -> int {
        if self.data.len() - self.offset(index) < self.chunk_size as int {
            self.data.len() - self.offset(index)
        } else {
            self.chunk_size as int
        }
    }

    pub open spec fn wf(self) -> bool {
        &&& self.chunk_size > 0
        &&& self.total == chunk_count_spec(self.data.len() as int, self.chunk_size as int)
        &&& self.received.len() == self.total
        &&& self.contiguous <= self.total
        &&& forall|j: int| 0 <= j < self.contiguous ==> self.received[j]
        &&& self.contiguous < self.total ==> !self.received[self.contiguous as int]
        &&& forall|j: int| 0 <= j < self.total ==> (self.received[j] <==> self.chunks.contains_key(j))
        &&& forall|j: int| self.chunks.contains_key(j) ==> 0 <= j < self.total
        &&& forall|j: int| #[trigger]
            self.chunks.contains_key(j) ==> self.data.subrange(
                self.offset(j),
                self.offset(j) + self.chunk_len(j),
            ) == self.chunks[j]
    }
}

/// The receiving side of a transfer: it reassembles the file in memory.
pub struct ReceiveWindow {
    chunk_size: u16,
    window: u32,
    total: usize,
    received: Vec<bool>,
    contiguous: usize,
    data: Vec<u8>,
    chunks: Ghost<Map<int, Seq<u8>>>,
}

impl View for ReceiveWindow {
    type V = ReceiveWindowView;

    closed spec fn view(&self) -> ReceiveWindowView {
        ReceiveWindowView {
            chunk_size: self.chunk_size,
            window: self.window,
            total: self.total,
            received: self.received@,
            contiguous: self.contiguous,
            data: self.data@,
            chunks: self.chunks@,
        }
    }
}

impl ReceiveWindow {
    /// A receiver for a file of `file_size` bytes in chunks of `chunk_size`,
    /// holding at most `window` chunks beyond the contiguous ones. Fails with
    /// `MissingData` on a zero chunk size or window, and with `IOError` when
    /// the file cannot be held in memory.
    pub fn new(file_size: u64, chunk_size: u16, window: u32) -> (r: Result<Self, FTLTunnelError>)
        ensures
            chunk_size == 0 || window == 0 ==> r == Err::<Self, FTLTunnelError>(
                FTLTunnelError::MissingData,
            ),
            chunk_size > 0 && window > 0 && file_size > usize::MAX ==> r == Err::<
                Self,
                FTLTunnelError,
            >(FTLTunnelError::IOError),
            chunk_size > 0 && window > 0 && file_size <= usize::MAX ==> r is Ok,
            r matches Ok(w) ==> w@.wf() && w@.chunk_size == chunk_size && w@.window == window
                && w@.contiguous == 0 && w@.data == Seq::new(file_size as nat, |i: int| 0u8)
                && w@.received == Seq::new(w@.total as nat, |i: int| false) && w@.chunks
                == Map::<int, Seq<u8>>::empty(),
    {
        if chunk_size == 0 || window == 0 {
            return Err(FTLTunnelError::MissingData);
        }
        if file_size > usize::MAX as u64 {
            return Err(FTLTunnelError::IOError);
        }
        let total = chunk_count(file_size, chunk_size) as usize;
        let data: Vec<u8> = vec![0u8; file_size as usize];
        let received: Vec<bool> = vec![false; total];
        let w = ReceiveWindow {
            chunk_size,
            window,
            total,
            received,
            contiguous: 0,
            data,
            chunks: Ghost(Map::empty()),
        };
        assert(w@.data =~= Seq::new(file_size as nat, |i: int| 0u8));
        assert(w@.received =~= Seq::new(total as nat, |i: int| false));
        Ok(w)
    }

    /// How many chunks, from the first on, have all arrived: the cumulative
    /// acknowledgment to send.
    pub fn contiguous(&self) -> (r: usize)
        ensures
            r == self@.contiguous,
    {
        self.contiguous
    }

    /// Whether every chunk has arrived.
    pub fn is_complete(&self) -> (r: bool)
        ensures
            r == (self@.contiguous == self@.total),
    {
        self.contiguous == self.total
    }

    /// The file as reassembled so far.
    pub fn data(&self) -> (r: &[u8])
        ensures
            r@ == self@.data,
    {
        self.data.as_slice()
    }

    /// Takes chunk `index`. A chunk that does not exist, or whose length is
    /// not that chunk's, is refused with `InvalidPacket`. A chunk beyond the
    /// window, or one that arrived before, is dropped. Otherwise it is copied
    /// into place. Returns the cumulative acknowledgment.
    pub fn accept_chunk(&mut self, index: usize, bytes: &[u8]) -> (r: Result<usize, FTLTunnelError>)
        requires
            old(self)@.wf(),
        ensures
            final(self)@.wf(),
            ({
                let o = old(self)@;
                let n = final(self)@;
                if index >= o.total || bytes@.len() != o.chunk_len(index as int) {
                    r == Err::<usize, FTLTunnelError>(FTLTunnelError::InvalidPacket) && n == o
                } else if index >= o.contiguous + o.window || o.received[index as int] {
                    r == Ok::<usize, FTLTunnelError>(o.contiguous) && n == o
                } else {
                    &&& r == Ok::<usize, FTLTunnelError>(n.contiguous)
                    &&& n.contiguous >= o.contiguous
                    &&& n.received == o.received.update(index as int, true)
                    &&& n.chunks == o.chunks.insert(index as int, bytes@)
                    &&& n.data == o.data.subrange(0, o.offset(index as int)) + bytes@
                        + o.data.subrange(o.offset(index as int) + bytes@.len(), o.data.len() as int)
                    &&& n.chunk_size == o.chunk_size && n.window == o.window && n.total == o.total
                }
            }),
    {
        if index >= self.total {
            return Err(FTLTunnelError::InvalidPacket);
        }
        proof {
            lemma_chunk_in_file(index as int, self.data@.len() as int, self.chunk_size as int);
            assert((index as int) * (self.chunk_size as int) < self.data@.len());
        }
        let len = self.data.len();
        assert((index as int) * (self.chunk_size as int) < len);
        let offset: usize = index * self.chunk_size as usize;
        let rest: usize = len - offset;
        let expected: usize = if rest < self.chunk_size as usize {
            rest
        } else {
            self.chunk_size as usize
        };
        if bytes.len() != expected {
            return Err(FTLTunnelError::InvalidPacket);
        }
        if index >= self.contiguous && index - self.contiguous >= self.window as usize {
            return Ok(self.contiguous);
        }
        if self.received[index] {
            return Ok(self.contiguous);
        }
        let ghost before = self.data@;
        let mut k: usize = 0;
        while k < expected
            invariant
                k <= expected,
                expected == bytes@.len(),
                offset + expected <= before.len(),
                before.len() == self.data@.len(),
                before.len() == len,
                before == old(self).data@,
                self.received@ == old(self).received@,
                self.chunks@ == old(self).chunks@,
                self.contiguous == old(self).contiguous,
                self.total == old(self).total,
                self.chunk_size == old(self).chunk_size,
                self.window == old(self).window,
                forall|j: int|
                    0 <= j < before.len() ==> self.data@[j] == if offset <= j < offset + k {
                        bytes@[j - offset]
                    } else {
                        before[j]
                    },
            decreases expected - k,
        {
            self.data.set(offset + k, bytes[k]);
            k = k + 1;
        }
        assert(self.data@ =~= before.subrange(0, offset as int) + bytes@ + before.subrange(
            offset + expected,
            before.len() as int,
        ));
        proof {
            let o = old(self)@;
            assert(self.data@.subrange(offset as int, offset + expected) =~= bytes@);
            assert forall|j: int| #[trigger] o.chunks.contains_key(j) implies self.data@.subrange(
                o.offset(j),
                o.offset(j) + o.chunk_len(j),
            ) == o.chunks[j] by {
                lemma_chunk_in_file(j, o.data.len() as int, o.chunk_size as int);
                lemma_chunks_disjoint(o, index as int, j);
                assert(self.data@.subrange(o.offset(j), o.offset(j) + o.chunk_len(j))
                    =~= before.subrange(o.offset(j), o.offset(j) + o.chunk_len(j)));
            }
        }
        self.chunks = Ghost(self.chunks@.insert(index as int, bytes@));
        self.received.set(index, true);
        let ghost start = self.contiguous;
        let ghost filled = self.data@;
        while self.contiguous < self.total && self.received[self.contiguous]
            invariant
                start == old(self).contiguous,
                start <= self.contiguous <= self.total,
                self.received@ == old(self).received@.update(index as int, true),
                self.received@.len() == self.total,
                self.data@ == filled,
                self.chunks@ == old(self).chunks@.insert(index as int, bytes@),
                self.total == old(self).total,
                self.chunk_size == old(self).chunk_size,
                self.window == old(self).window,
                forall|j: int| 0 <= j < self.contiguous ==> self.received@[j],
            decreases self.total - self.contiguous,
        {
            self.contiguous = self.contiguous + 1;
        }
        Ok(self.contiguous)
    }
}

impl ReceiveWindow {
    /// The gap to report after chunk `index` arrived: the lowest missing
    /// chunk, when `index` lies beyond it; `None` when there is no gap below
    /// `index`.
    pub fn gap_below(&self, index: usize) -> (r: Option<usize>)
        ensures
            r == if self@.contiguous < index && self@.contiguous < self@.total {
                Some(self@.contiguous)
            } else {
                None::<usize>
            },
    {
        if self.contiguous < index && self.contiguous < self.total {
            Some(self.contiguous)
        } else {
            None
        }
    }
}

/// Consecutive read timeouts after which a receiver gives the sender up.
pub const MAX_SILENT_TIMEOUTS: u32 = 10;

/// Counts consecutive read timeouts on the receiving side.
pub struct Silence {
    timeouts: u32,
}

impl Silence {
    /// Consecutive timeouts so far.
    pub closed spec fn count(&self) -> u32 {
        self.timeouts
    }

    pub fn new() -> (r: Self)
        ensures
            r.count() == 0,
    {
        Silence { timeouts: 0 }
    }

    /// A frame arrived: the count starts over.
    pub fn heard(&mut self)
        ensures
            final(self).count() == 0,
    {
        self.timeouts = 0;
    }

    /// A read timed out. Returns whether to give the sender up: after
    /// `MAX_SILENT_TIMEOUTS` timeouts in a row.
    pub fn on_timeout(&mut self) -> (r: bool)
        ensures
            final(self).count() == if old(self).count() < MAX_SILENT_TIMEOUTS {
                (old(self).count() + 1) as u32
            } else {
                old(self).count()
            },
            r == (final(self).count() >= MAX_SILENT_TIMEOUTS),
    {
        if self.timeouts < MAX_SILENT_TIMEOUTS {
            self.timeouts = self.timeouts + 1;
        }
        self.timeouts >= MAX_SILENT_TIMEOUTS
    }
}

/// A receiver with every chunk arrived holds each chunk that it took at
/// that chunk's place in the file: the file is reassembled exactly.
pub proof fn lemma_complete_holds_every_chunk(w: ReceiveWindow)
    requires
        w@.wf(),
        w@.contiguous == w@.total,
    ensures
        forall|j: int| 0 <= j < w@.total ==> #[trigger] w@.chunks.contains_key(j),
        forall|j: int|
            0 <= j < w@.total ==> w@.data.subrange(w@.offset(j), w@.offset(j) + w@.chunk_len(j))
                == #[trigger] w@.chunks[j],
{
    let v = w@;
    assert forall|j: int| 0 <= j < v.total implies #[trigger] v.chunks.contains_key(j) by {
        assert(v.received[j]);
    }
    assert forall|j: int| 0 <= j < v.total implies v.data.subrange(
        v.offset(j),
        v.offset(j) + v.chunk_len(j),
    ) == #[trigger] v.chunks[j] by {
        assert(v.received[j]);
        assert(v.chunks.contains_key(j));
    }
}

/// Where chunk `index` of a file of `file_size` bytes starts and ends, or
/// `None` when the file has no such chunk.
pub fn chunk_bounds(file_size: usize, chunk_size: u16, index: usize) -> (r: Option<(usize, usize)>)
    requires
        chunk_size > 0,
    ensures
        index < chunk_count_spec(file_size as int, chunk_size as int) <==> r is Some,
        r matches Some((start, end)) ==> start == index * chunk_size && end == if start
            + chunk_size <= file_size {
            start + chunk_size
        } else {
            file_size as int
        },
        r matches Some((start, end)) ==> start < end <= file_size,
{
    let total = chunk_count(file_size as u64, chunk_size);
    if index as u64 >= total {
        return None;
    }
    proof {
        lemma_chunk_in_file(index as int, file_size as int, chunk_size as int);
    }
    assert((index as int) * (chunk_size as int) < file_size);
    let start: usize = index * chunk_size as usize;
    let end: usize = if file_size - start >= chunk_size as usize {
        start + chunk_size as usize
    } else {
        file_size
    };
    Some((start, end))
}

/// The body of a chunk-data frame: the chunk index, four bytes big-endian,
/// then the chunk.
pub fn chunk_body(index: u32, data: &[u8]) -> (r: Vec<u8>)
    ensures
        r@ == be32(index) + data@,
{
    let mut r: Vec<u8> = Vec::new();
    r.push((index >> 24u32) as u8);
    r.push((index >> 16u32) as u8);
    r.push((index >> 8u32) as u8);
    r.push(index as u8);
    let ghost head = r@;
    assert(head =~= be32(index));
    let mut i: usize = 0;
    while i < data.len()
        invariant
            i <= data@.len(),
            r@ == head + data@.subrange(0, i as int),
        decreases data@.len() - i,
    {
        r.push(data[i]);
        i = i + 1;
        assert(r@ =~= head + data@.subrange(0, i as int));
    }
    assert(data@.subrange(0, i as int) =~= data@);
    r
}

/// Splits a chunk-data body into the chunk index and the chunk; `None` when
/// the body is too short to hold an index.
pub fn split_chunk_body(body: &[u8]) -> (r: Option<(u32, Vec<u8>)>)
    ensures
        body@.len() >= 4 <==> r is Some,
        r matches Some((index, data)) ==> index == be32_at(body@, 0) && data@ == body@.subrange(
            4,
            body@.len() as int,
        ),
{
    if body.len() < 4 {
        return None;
    }
    let index: u32 = ((body[0] as u32) << 24u32) | ((body[1] as u32) << 16u32) | ((
    body[2] as u32) << 8u32) | (body[3] as u32);
    let mut data: Vec<u8> = Vec::new();
    let mut i: usize = 4;
    while i < body.len()
        invariant
            4 <= i <= body@.len(),
            data@ == body@.subrange(4, i as int),
        decreases body@.len() - i,
    {
        data.push(body[i]);
        i = i + 1;
        assert(data@ =~= body@.subrange(4, i as int));
    }
    Some((index, data))
}

/// A chunk body splits back into the index and the chunk it was made from.
pub proof fn lemma_chunk_body_round_trip(index: u32, data: Seq<u8>)
    ensures
        be32_at(be32(index) + data, 0) == index,
        (be32(index) + data).subrange(4, (be32(index) + data).len() as int) == data,
{
    lemma_be32_round_trip(index);
    assert((be32(index) + data).subrange(4, (be32(index) + data).len() as int) =~= data);
}

} // verus!
