//! The rate-paced sender: walks a file into chunks and schedules each
//! chunk's transmission against a fixed-interval deadline. The transport
//! and the file reads live outside; this state machine only decides, for
//! a given instant, what to do next, and records each successful send.
use crate::chunks::{chunk_len, chunk_offset, num_chunks};
use crate::codec::DgHdr;
use crate::Mode;
use vstd::prelude::*;

verus! {

/// What the sender should do at a given instant.
#[derive(Clone, Copy, Debug, PartialEq, Eq, Structural)]
pub enum SendAction {
    /// Everything is sent: ask the connection to close gracefully.
    Close,
    /// The next chunk's deadline has not arrived yet.
    Wait,
    /// Read `len` bytes at `offset` from the source and submit them,
    /// marking the final chunk.
    SendChunk { offset: u64, len: u64, last: bool },
}

/// One file transfer in flight on the sending side.
pub struct SenderSession {
    pub mode: Mode,
    pub chunk_bytes: u64,
    pub total_size: u64,
    pub sent_bytes: u64,
    pub file_id: u64,
    pub interval_ns: u64,
    pub next_deadline_ns: u64,
    pub stream_id: Option<u64>,
}

impl SenderSession {
    /// Internal consistency: a positive chunk size that fits the header's
    /// length field, progress within bounds, and progress always made in
    /// whole chunks until the final, possibly shorter, one.
    pub open spec fn wf(self) -> bool {
        &&& 0 < self.chunk_bytes <= 0xFFFF_FFFFu64
        &&& self.sent_bytes <= self.total_size
        &&& (self.sent_bytes % self.chunk_bytes == 0 || self.sent_bytes == self.total_size)
    }

    /// The length of the next chunk: a full chunk, or the remainder.
    pub open spec fn spec_payload_len(self) -> u64 {
        if self.total_size - self.sent_bytes < self.chunk_bytes {
            (self.total_size - self.sent_bytes) as u64
        } else {
            self.chunk_bytes
        }
    }

    /// The fixed pacing interval: the time one chunk takes at the
    /// configured rate, in nanoseconds.
    pub open spec fn spec_interval_ns(chunk_bytes: u64, bytes_per_sec: u64) -> u64
        recommends
            bytes_per_sec > 0,
            chunk_bytes <= 0xFFFF_FFFFu64,
    {
        ((chunk_bytes * 1_000_000_000) / bytes_per_sec as int) as u64
    }

    /// Opens a session: nothing sent, the first deadline at `now_ns`, the
    /// pacing interval fixed to `chunk_bytes / bytes_per_sec` seconds.
    pub fn new(
        mode: Mode,
        chunk_bytes: u64,
        bytes_per_sec: u64,
        total_size: u64,
        file_id: u64,
        now_ns: u64,
    ) -> (s: SenderSession)
        requires
            0 < chunk_bytes <= 0xFFFF_FFFFu64,
            bytes_per_sec > 0,
        ensures
            s.wf(),
            s == (SenderSession {
                mode,
                chunk_bytes,
                total_size,
                sent_bytes: 0,
                file_id,
                interval_ns: Self::spec_interval_ns(chunk_bytes, bytes_per_sec),
                next_deadline_ns: now_ns,
                stream_id: None,
            }),
    {
        assert(chunk_bytes * 1_000_000_000 <= 0xFFFF_FFFFu64 * 1_000_000_000) by (nonlinear_arith)
            requires
                chunk_bytes <= 0xFFFF_FFFFu64,
        ;
        assert(0u64 % chunk_bytes == 0) by (nonlinear_arith)
            requires
                chunk_bytes > 0,
        ;
        let interval_ns = (chunk_bytes * 1_000_000_000) / bytes_per_sec;
        SenderSession {
            mode,
            chunk_bytes,
            total_size,
            sent_bytes: 0,
            file_id,
            interval_ns,
            next_deadline_ns: now_ns,
            stream_id: None,
        }
    }

    /// The connection is up: remember the stream the transport opened and
    /// restart pacing at the current instant.
    pub fn on_established(&mut self, stream_id: u64, now_ns: u64)
        ensures
            *final(self) == (SenderSession {
                stream_id: Some(stream_id),
                next_deadline_ns: now_ns,
                ..*old(self)
            }),
    {
        self.stream_id = Some(stream_id);
        self.next_deadline_ns = now_ns;
    }

    /// A stream was created by the transport: keep its id if none is held yet.
    pub fn on_stream_created(&mut self, stream_id: u64)
        ensures
            old(self).stream_id is None ==> *final(self) == (SenderSession {
                stream_id: Some(stream_id),
                ..*old(self)
            }),
            old(self).stream_id is Some ==> *final(self) == *old(self),
    {
        if self.stream_id.is_none() {
            self.stream_id = Some(stream_id);
        }
    }

    /// The scheduling decision at instant `now_ns`: close once everything
    /// is sent; otherwise wait for the deadline; otherwise send the next
    /// chunk, which starts at `sent_bytes` and is flagged last exactly
    /// when it reaches the end of the file.
    pub fn next_action(&self, now_ns: u64) -> (r: SendAction)
        requires
            self.wf(),
        ensures
            self.sent_bytes == self.total_size ==> r == SendAction::Close,
            self.sent_bytes < self.total_size && now_ns < self.next_deadline_ns ==> r
                == SendAction::Wait,
            self.sent_bytes < self.total_size && now_ns >= self.next_deadline_ns ==> r == (
            SendAction::SendChunk {
                offset: self.sent_bytes,
                len: self.spec_payload_len(),
                last: self.sent_bytes + self.spec_payload_len() == self.total_size,
            }),
    {
        if self.sent_bytes >= self.total_size {
            return SendAction::Close;
        }
        if now_ns < self.next_deadline_ns {
            return SendAction::Wait;
        }
        let remaining = self.total_size - self.sent_bytes;
        let len = if remaining < self.chunk_bytes {
            remaining
        } else {
            self.chunk_bytes
        };
        SendAction::SendChunk { offset: self.sent_bytes, len, last: self.sent_bytes + len == self.total_size }
    }

    /// The header for the next chunk, as the datagram path frames it.
    pub fn make_header(&self, now_ns: u64) -> (h: DgHdr)
        requires
            self.wf(),
            self.sent_bytes < self.total_size,
        ensures
            h == (DgHdr {
                file_id: self.file_id,
                total_size: self.total_size,
                offset: self.sent_bytes,
                len: self.spec_payload_len() as u32,
                flags: if self.sent_bytes + self.spec_payload_len() == self.total_size {
                    1u8
                } else {
                    0u8
                },
                send_ts_ns: now_ns,
            }),
    {
        let remaining = self.total_size - self.sent_bytes;
        let len = if remaining < self.chunk_bytes {
            remaining
        } else {
            self.chunk_bytes
        };
        DgHdr {
            file_id: self.file_id,
            total_size: self.total_size,
            offset: self.sent_bytes,
            len: len as u32,
            flags: if self.sent_bytes + len == self.total_size {
                1
            } else {
                0
            },
            send_ts_ns: now_ns,
        }
    }

    /// The session after one successful chunk submission: progress grows
    /// by the chunk just sent, and the deadline advances by the fixed
    /// interval regardless of the wall clock, so a stalled loop catches
    /// up with a burst rather than skipping work.
    pub open spec fn spec_step(s: SenderSession) -> SenderSession {
        SenderSession {
            sent_bytes: (s.sent_bytes + s.spec_payload_len()) as u64,
            next_deadline_ns: (s.next_deadline_ns + s.interval_ns) as u64,
            ..s
        }
    }

    /// The session after `n` successful chunk submissions.
    pub open spec fn spec_steps(s: SenderSession, n: nat) -> SenderSession
        decreases n,
    {
        if n == 0 {
            s
        } else {
            Self::spec_step(Self::spec_steps(s, (n - 1) as nat))
        }
    }

    /// Records one successful submission of the next chunk.
    pub fn on_chunk_sent(&mut self)
        requires
            old(self).wf(),
            old(self).sent_bytes < old(self).total_size,
            old(self).next_deadline_ns + old(self).interval_ns <= u64::MAX,
        ensures
            *final(self) == Self::spec_step(*old(self)),
            final(self).wf(),
    {
        let remaining = self.total_size - self.sent_bytes;
        let len = if remaining < self.chunk_bytes {
            remaining
        } else {
            self.chunk_bytes
        };
        proof {
            if remaining >= self.chunk_bytes {
                assert((self.sent_bytes + self.chunk_bytes) % (self.chunk_bytes as int) == 0)
                    by (nonlinear_arith)
                    requires
                        self.chunk_bytes > 0,
                        self.sent_bytes % self.chunk_bytes == 0,
                ;
            }
        }
        self.sent_bytes = self.sent_bytes + len;
        self.next_deadline_ns = self.next_deadline_ns + self.interval_ns;
    }
}

/// The chunk a sender at progress `k * chunk_bytes` emits is chunk `k`
/// of the partition: same offset, same length, and flagged last exactly
/// for the partition's final chunk.
pub proof fn lemma_sender_matches_partition(s: SenderSession, k: int)
    requires
        s.wf(),
        0 <= k,
        s.sent_bytes == k * s.chunk_bytes,
        s.sent_bytes < s.total_size,
    ensures
        s.sent_bytes == chunk_offset(s.chunk_bytes as int, k),
        s.spec_payload_len() == chunk_len(s.total_size as int, s.chunk_bytes as int, k),
        (s.sent_bytes + s.spec_payload_len() == s.total_size) <==> k == num_chunks(
            s.total_size as int,
            s.chunk_bytes as int,
        ) - 1,
{
    let total = s.total_size as int;
    let chunk = s.chunk_bytes as int;
    assert((k + 1) * chunk == k * chunk + chunk) by (nonlinear_arith);
    assert(k < num_chunks(total, chunk)) by (nonlinear_arith)
        requires
            chunk > 0,
            k >= 0,
            k * chunk < total,
    ;
    crate::chunks::lemma_chunk_partition(total, chunk);
}

/// The pacing bound: `n` chunks sent in full-chunk steps push the
/// deadline forward by exactly `n` pacing intervals past where it began,
/// while progress grows by `n` full chunks — so a run of `n` chunks is
/// scheduled across `n * chunk / rate` seconds of deadline time.
pub proof fn lemma_pacing_schedule(s: SenderSession, n: nat)
    requires
        s.wf(),
        s.sent_bytes + n * s.chunk_bytes <= s.total_size,
        s.next_deadline_ns + n * s.interval_ns <= u64::MAX,
    ensures
        SenderSession::spec_steps(s, n).next_deadline_ns == s.next_deadline_ns + n * s.interval_ns,
        SenderSession::spec_steps(s, n).sent_bytes == s.sent_bytes + n * s.chunk_bytes,
        SenderSession::spec_steps(s, n).wf(),
        SenderSession::spec_steps(s, n).interval_ns == s.interval_ns,
        SenderSession::spec_steps(s, n).chunk_bytes == s.chunk_bytes,
        SenderSession::spec_steps(s, n).total_size == s.total_size,
    decreases n,
{
    if n == 0 {
        assert(n * s.chunk_bytes == 0 && n * s.interval_ns == 0) by (nonlinear_arith)
            requires
                n == 0,
        ;
    } else {
        let m = (n - 1) as nat;
        assert(m * s.chunk_bytes <= n * s.chunk_bytes && m * s.interval_ns <= n * s.interval_ns
            && n * s.chunk_bytes == m * s.chunk_bytes + s.chunk_bytes && n * s.interval_ns == m
            * s.interval_ns + s.interval_ns) by (nonlinear_arith)
            requires
                n >= 1,
                m == n - 1,
        ;
        lemma_pacing_schedule(s, m);
        let t = SenderSession::spec_steps(s, m);
        assert(t.total_size - t.sent_bytes >= t.chunk_bytes);
        assert(t.spec_payload_len() == t.chunk_bytes);
        assert((t.sent_bytes + t.chunk_bytes) % (t.chunk_bytes as int) == 0) by (nonlinear_arith)
            requires
                t.chunk_bytes > 0,
                t.sent_bytes % t.chunk_bytes == 0 || t.sent_bytes == t.total_size,
                t.total_size - t.sent_bytes >= t.chunk_bytes,
        ;
        assert(SenderSession::spec_steps(s, n) == SenderSession::spec_step(t));
    }
}

} // verus!
