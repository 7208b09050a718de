//! A byte-exact model of the receiver's write target: a growable file
//! written either by appending (the stream path) or at an absolute
//! offset with zero-fill of any gap (the datagram path, matching a seek
//! past the end followed by a write).
use crate::chunks::{chunk_offset, chunk_payload, num_chunks};
use vstd::prelude::*;

verus! {

/// The file contents after writing `p` at absolute position `off`:
/// bytes of `p` replace (or extend) the range `[off, off + p.len())`,
/// any gap before `off` reads as zero, and everything else is kept.
/// Writing nothing changes nothing.
pub open spec fn spec_write_at(f: Seq<u8>, off: int, p: Seq<u8>) -> Seq<u8>
    recommends
        0 <= off,
{
    if p.len() == 0 {
        f
    } else {
        Seq::new(
            if off + p.len() > f.len() {
                (off + p.len()) as nat
            } else {
                f.len()
            },
            |i: int|
                if off <= i < off + p.len() {
                    p[i - off]
                } else if i < f.len() {
                    f[i]
                } else {
                    0u8
                },
        )
    }
}

/// An output file being reassembled on the receiving side.
pub struct OutputFile {
    pub data: Vec<u8>,
}

impl OutputFile {
    /// A freshly created, empty file.
    pub fn new() -> (f: OutputFile)
        ensures
            f.data@ == Seq::<u8>::empty(),
    {
        OutputFile { data: Vec::new() }
    }

    /// The file's current length.
    pub fn len(&self) -> (n: usize)
        ensures
            n == self.data@.len(),
    {
        self.data.len()
    }

    /// Writes `p` at absolute position `off`, zero-filling any gap, as a
    /// positioned write on a sparse-capable file does.
    pub fn write_at(&mut self, off: usize, p: &[u8])
        requires
            off + p@.len() <= usize::MAX,
        ensures
            final(self).data@ == spec_write_at(old(self).data@, off as int, p@),
    {
        let ghost orig = self.data@;
        if p.len() == 0 {
            return ;
        }
        // zero-fill any gap between the current end and `off`
        while self.data.len() < off
            invariant
                orig.len() <= self.data@.len(),
                self.data@.len() <= if off > orig.len() {
                    off as int
                } else {
                    orig.len() as int
                },
                forall|j: int| 0 <= j < self.data@.len() ==> self.data@[j] == if j < orig.len() {
                    orig[j]
                } else {
                    0u8
                },
            decreases off - self.data@.len(),
        {
            self.data.push(0);
        }
        let ghost base = self.data@;
        let ghost base_len = base.len() as int;
        // overwrite, then extend, with the payload's bytes
        let mut i: usize = 0;
        while i < p.len()
            invariant
                off + p@.len() <= usize::MAX,
                0 <= i <= p@.len(),
                base_len == if off > orig.len() {
                    off as int
                } else {
                    orig.len() as int
                },
                forall|j: int| 0 <= j < base_len && !(off <= j) ==> base[j] == if j < orig.len() {
                    orig[j]
                } else {
                    0u8
                },
                forall|j: int| off + i <= j < base_len ==> base[j] == if j < orig.len() {
                    orig[j]
                } else {
                    0u8
                },
                self.data@.len() == if off + i > base_len {
                    off + i
                } else {
                    base_len
                },
                forall|j: int| 0 <= j < self.data@.len() && !(off <= j < off + i)
                    ==> self.data@[j] == if j < base.len() {
                    base[j]
                } else {
                    0u8
                },
                forall|j: int| off <= j < off + i ==> self.data@[j] == p@[j - off],
            decreases p@.len() - i,
        {
            let idx = off + i;
            if idx < self.data.len() {
                self.data.set(idx, p[i]);
            } else {
                self.data.push(p[i]);
            }
            i = i + 1;
        }
        assert(self.data@ =~= spec_write_at(orig, off as int, p@));
    }

    /// Appends `p` at the end of the file, as the ordered stream path does.
    pub fn append(&mut self, p: &[u8])
        requires
            old(self).data@.len() + p@.len() <= usize::MAX,
        ensures
            final(self).data@ == old(self).data@ + p@,
    {
        let ghost orig = self.data@;
        let mut i: usize = 0;
        while i < p.len()
            invariant
                0 <= i <= p@.len(),
                self.data@ == orig + p@.subrange(0, i as int),
            decreases p@.len() - i,
        {
            self.data.push(p[i]);
            proof {
                assert(orig + p@.subrange(0, i as int) + seq![p@[i as int]] =~= orig + p@.subrange(
                    0,
                    i + 1,
                ));
            }
            i = i + 1;
        }
        assert(self.data@ =~= orig + p@);
    }
}

/// Writing the same bytes at the same offset twice leaves the file as
/// one delivery does: positioned writes are idempotent under duplicate
/// delivery of a chunk.
pub proof fn lemma_write_idempotent(f: Seq<u8>, off: int, p: Seq<u8>)
    requires
        0 <= off,
    ensures
        spec_write_at(spec_write_at(f, off, p), off, p) == spec_write_at(f, off, p),
{
    if p.len() > 0 {
        assert(spec_write_at(spec_write_at(f, off, p), off, p) =~= spec_write_at(f, off, p));
    }
}

/// Writes to disjoint ranges land the same way in either order: the
/// datagram path tolerates out-of-order arrival of distinct chunks.
pub proof fn lemma_write_at_commutes(f: Seq<u8>, off1: int, p1: Seq<u8>, off2: int, p2: Seq<u8>)
    requires
        0 <= off1,
        0 <= off2,
        off1 + p1.len() <= off2 || off2 + p2.len() <= off1,
    ensures
        spec_write_at(spec_write_at(f, off1, p1), off2, p2) == spec_write_at(
            spec_write_at(f, off2, p2),
            off1,
            p1,
        ),
{
    if p1.len() == 0 || p2.len() == 0 {
    } else {
        assert(spec_write_at(spec_write_at(f, off1, p1), off2, p2) =~= spec_write_at(
            spec_write_at(f, off2, p2),
            off1,
            p1,
        ));
    }
}

/// The file after the first `n` chunks of `data` have arrived, in order,
/// each written at its own offset.
pub open spec fn spec_deliver(file: Seq<u8>, data: Seq<u8>, chunk: int, n: int) -> Seq<u8>
    decreases n,
{
    if n <= 0 {
        file
    } else {
        spec_write_at(
            spec_deliver(file, data, chunk, n - 1),
            chunk_offset(chunk, n - 1),
            chunk_payload(data, chunk, n - 1),
        )
    }
}

/// Delivering the first `n` chunks into an initially empty file yields
/// exactly the first `n*chunk` bytes of the source.
pub proof fn lemma_deliver_prefix(data: Seq<u8>, chunk: int, n: int)
    requires
        chunk > 0,
        0 <= n,
        (n - 1) * chunk <= data.len(),
    ensures
        spec_deliver(Seq::empty(), data, chunk, n) == data.subrange(
            0,
            if n * chunk <= data.len() {
                n * chunk
            } else {
                data.len() as int
            },
        ),
    decreases n,
{
    let total = data.len() as int;
    if n == 0 {
        assert(n * chunk == 0) by (nonlinear_arith)
            requires
                n == 0,
        ;
        assert(spec_deliver(Seq::empty(), data, chunk, 0) =~= data.subrange(0, 0));
    } else {
        assert((n - 2) * chunk <= (n - 1) * chunk) by (nonlinear_arith)
            requires
                chunk > 0,
                n >= 1,
        ;
        lemma_deliver_prefix(data, chunk, n - 1);
        assert((n - 1) * chunk == n * chunk - chunk) by (nonlinear_arith);
        assert(((n - 1) + 1) * chunk == n * chunk) by (nonlinear_arith);
        let prev_end = (n - 1) * chunk;
        let end = if n * chunk <= total {
            n * chunk
        } else {
            total
        };
        let prev = spec_deliver(Seq::empty(), data, chunk, n - 1);
        assert(prev == data.subrange(0, prev_end));
        assert(spec_deliver(Seq::empty(), data, chunk, n) =~= data.subrange(0, end));
    }
}

/// Unreliable-message reassembly without loss: once every chunk of
/// `data` has been written at its own offset, in order, into an empty
/// file, the file holds exactly `data`.
pub proof fn lemma_datagram_reassembly(data: Seq<u8>, chunk: int)
    requires
        chunk > 0,
    ensures
        spec_deliver(Seq::empty(), data, chunk, num_chunks(data.len() as int, chunk)) == data,
{
    let total = data.len() as int;
    let n = num_chunks(total, chunk);
    assert(n >= 0 && total <= n * chunk && (n - 1) * chunk <= total) by (nonlinear_arith)
        requires
            chunk > 0,
            total >= 0,
            n == (total + chunk - 1) / chunk,
    ;
    lemma_deliver_prefix(data, chunk, n);
    assert(data.subrange(0, total) =~= data);
}

} // verus!
