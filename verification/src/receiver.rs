//! The receiver's per-transfer bookkeeping: demultiplexes inbound
//! datagram chunks by transfer identifier and stream segments by stream
//! identifier, decides what to write where, and applies the file-length
//! completion heuristic. The files themselves live outside; each
//! decision is returned as a plain value for the caller to carry out.
use crate::codec::{spec_decode, DgHdr};
use std::collections::HashMap;
use vstd::prelude::*;

verus! {

broadcast use vstd::std_specs::hash::group_hash_axioms;

/// What the receiver remembers about one datagram-mode transfer: the
/// declared file size, taken from the first chunk seen for that id.
#[derive(Clone, Copy, Debug, PartialEq, Eq, Structural)]
pub struct DgMeta {
    pub total_size: u64,
}

/// What the receiver remembers about one inbound stream: how many
/// payload bytes have arrived so far.
#[derive(Clone, Copy, Debug, PartialEq, Eq, Structural)]
pub struct StreamMeta {
    pub received_bytes: u64,
}

/// The decision for one inbound datagram: drop it, or write part of its
/// payload into the transfer's output file.
#[derive(Clone, Copy, Debug, PartialEq, Eq, Structural)]
pub enum DgramStep {
    /// Too short to hold a header: drop the message and warn.
    BadHeader,
    /// Write the first `write_len` payload bytes at `header.offset` of
    /// the output file for `header.file_id`; open that file first when
    /// `created`. `truncated` warns that the declared length exceeded
    /// the bytes actually present.
    Write { header: DgHdr, created: bool, write_len: usize, truncated: bool },
}

/// The bookkeeping update for one stream segment.
#[derive(Clone, Copy, Debug, PartialEq, Eq, Structural)]
pub struct StreamNote {
    /// This is the first segment of a new stream: open its output file.
    pub created: bool,
    /// Payload bytes seen on this stream so far, this segment included.
    pub received_bytes: u64,
    /// The transport signalled the final segment: flush and finalize.
    pub finished: bool,
}

/// `a + b`, stopping at the largest representable value.
pub open spec fn sat_add_u64(a: u64, b: u64) -> u64 {
    if a + b > u64::MAX {
        u64::MAX
    } else {
        (a + b) as u64
    }
}

/// One connection's receiving side: the per-transfer and per-stream
/// state tables, owned here rather than globally.
pub struct ReceiverSession {
    pub dgram_files: HashMap<u64, DgMeta>,
    pub stream_files: HashMap<u64, StreamMeta>,
}

impl ReceiverSession {
    /// A session with no transfers seen yet.
    pub fn new() -> (s: ReceiverSession)
        ensures
            s.dgram_files@ == Map::<u64, DgMeta>::empty(),
            s.stream_files@ == Map::<u64, StreamMeta>::empty(),
    {
        ReceiverSession { dgram_files: HashMap::new(), stream_files: HashMap::new() }
    }

    /// Handles one inbound datagram. A message shorter than a header is
    /// dropped untouched. Otherwise the header is decoded; the transfer's
    /// state is created on first sight, keeping the declared total size;
    /// and the payload is written at the declared offset, truncated to
    /// the bytes actually present when the declared length overstates
    /// them.
    pub fn process_datagram(&mut self, buf: &[u8]) -> (r: DgramStep)
        ensures
            final(self).stream_files@ == old(self).stream_files@,
            buf@.len() < DgHdr::SIZE ==> r == DgramStep::BadHeader && final(self).dgram_files@
                == old(self).dgram_files@,
            buf@.len() >= DgHdr::SIZE ==> {
                let h = spec_decode(buf@);
                let plen = buf@.len() - DgHdr::SIZE;
                let created = !old(self).dgram_files@.contains_key(h.file_id);
                &&& r == (DgramStep::Write {
                    header: h,
                    created,
                    write_len: (if plen < h.len { plen as int } else { h.len as int }) as usize,
                    truncated: plen < h.len,
                })
                &&& final(self).dgram_files@ == if created {
                    old(self).dgram_files@.insert(h.file_id, DgMeta { total_size: h.total_size })
                } else {
                    old(self).dgram_files@
                }
            },
    {
        match DgHdr::parse(buf) {
            None => DgramStep::BadHeader,
            Some((header, payload)) => {
                let created = !self.dgram_files.contains_key(&header.file_id);
                if created {
                    self.dgram_files.insert(
                        header.file_id,
                        DgMeta { total_size: header.total_size },
                    );
                }
                let declared = header.len as usize;
                let write_len = if payload.len() < declared {
                    payload.len()
                } else {
                    declared
                };
                let truncated = payload.len() < declared;
                DgramStep::Write { header, created, write_len, truncated }
            },
        }
    }

    /// The declared total size of a datagram-mode transfer, if any chunk
    /// of it has been seen.
    pub fn dgram_total(&self, file_id: u64) -> (r: Option<u64>)
        ensures
            r == if self.dgram_files@.contains_key(file_id) {
                Some(self.dgram_files@[file_id].total_size)
            } else {
                None::<u64>
            },
    {
        match self.dgram_files.get(&file_id) {
            Some(meta) => Some(meta.total_size),
            None => None,
        }
    }

    /// Handles `n` payload bytes read from a stream, with the transport's
    /// final-segment signal. The stream's state is created on first
    /// sight; its byte counter grows by `n`.
    pub fn on_stream_data(&mut self, stream_id: u64, n: u64, fin: bool) -> (r: StreamNote)
        ensures
            final(self).dgram_files@ == old(self).dgram_files@,
            ({
                let created = !old(self).stream_files@.contains_key(stream_id);
                let prev: u64 = if created {
                    0u64
                } else {
                    old(self).stream_files@[stream_id].received_bytes
                };
                &&& r == (StreamNote {
                    created,
                    received_bytes: sat_add_u64(prev, n),
                    finished: fin,
                })
                &&& final(self).stream_files@ == old(self).stream_files@.insert(
                    stream_id,
                    StreamMeta { received_bytes: sat_add_u64(prev, n) },
                )
            }),
    {
        let (created, prev) = match self.stream_files.get(&stream_id) {
            Some(meta) => (false, meta.received_bytes),
            None => (true, 0u64),
        };
        let total = if n > u64::MAX - prev {
            u64::MAX
        } else {
            prev + n
        };
        self.stream_files.insert(stream_id, StreamMeta { received_bytes: total });
        StreamNote { created, received_bytes: total, finished: fin }
    }

    /// Bytes seen so far on a stream, if any segment of it has arrived.
    pub fn stream_received(&self, stream_id: u64) -> (r: Option<u64>)
        ensures
            r == if self.stream_files@.contains_key(stream_id) {
                Some(self.stream_files@[stream_id].received_bytes)
            } else {
                None::<u64>
            },
    {
        match self.stream_files.get(&stream_id) {
            Some(meta) => Some(meta.received_bytes),
            None => None,
        }
    }
}

/// The completion heuristic of the datagram path: a transfer counts as
/// complete when, on a chunk flagged last, the output file's length has
/// reached the declared total. This is a length check, not a coverage
/// check: a file with unwritten holes can satisfy it.
pub fn dgram_complete(file_len: u64, total_size: u64) -> (r: bool)
    ensures
        r == (file_len >= total_size),
{
    file_len >= total_size
}

} // verus!
