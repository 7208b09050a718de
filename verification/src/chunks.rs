//! The partition of a file into chunks: each chunk covers
//! `[i*chunk, i*chunk + len)` of the file, every chunk but the final one
//! is full, and the final one carries the remainder.
use vstd::prelude::*;

verus! {

/// How many chunks a file of `total` bytes yields at `chunk` bytes each.
pub open spec fn num_chunks(total: int, chunk: int) -> int
    recommends
        chunk > 0,
{
    (total + chunk - 1) / chunk
}

/// The file offset of chunk `i`.
pub open spec fn chunk_offset(chunk: int, i: int) -> int {
    i * chunk
}

/// The payload length of chunk `i`: full, except a shorter final chunk.
pub open spec fn chunk_len(total: int, chunk: int, i: int) -> int {
    if (i + 1) * chunk <= total {
        chunk
    } else {
        total - i * chunk
    }
}

/// The payload bytes of chunk `i` of `data`.
pub open spec fn chunk_payload(data: Seq<u8>, chunk: int, i: int) -> Seq<u8> {
    data.subrange(chunk_offset(chunk, i), chunk_offset(chunk, i) + chunk_len(
        data.len() as int,
        chunk,
        i,
    ))
}

/// The first `n` chunk payloads of `data`, in order, concatenated.
pub open spec fn concat_chunks(data: Seq<u8>, chunk: int, n: int) -> Seq<u8>
    decreases n,
{
    if n <= 0 {
        Seq::empty()
    } else {
        concat_chunks(data, chunk, n - 1) + chunk_payload(data, chunk, n - 1)
    }
}

/// Offsets walked in full-chunk steps stay in range: chunk `i` starts
/// strictly inside the file and ends inside it.
pub proof fn lemma_chunk_bounds(total: int, chunk: int, i: int)
    requires
        chunk > 0,
        0 <= i < num_chunks(total, chunk),
    ensures
        0 <= chunk_offset(chunk, i) < total,
        chunk_offset(chunk, i) + chunk_len(total, chunk, i) <= total,
        chunk_len(total, chunk, i) > 0,
        chunk_len(total, chunk, i) <= chunk,
{
    let n = num_chunks(total, chunk);
    assert((i + 1) * chunk == i * chunk + chunk) by (nonlinear_arith);
    assert(total > (n - 1) * chunk) by (nonlinear_arith)
        requires
            chunk > 0,
            n == (total + chunk - 1) / chunk,
    ;
    assert(i <= n - 1);
    assert(i * chunk <= (n - 1) * chunk) by (nonlinear_arith)
        requires
            chunk > 0,
            i <= n - 1,
    ;
    assert(chunk_offset(chunk, i) < total);
    assert(i * chunk >= 0) by (nonlinear_arith)
        requires
            chunk > 0,
            i >= 0,
    ;
}

/// The chunk partition: offsets are `0, chunk, 2*chunk, ...`;
/// every chunk but the final one has the full length; the final one has
/// `total % chunk` bytes, or a full `chunk` when that divides evenly; and
/// the final chunk is exactly the one that reaches the end of the file.
pub proof fn lemma_chunk_partition(total: int, chunk: int)
    requires
        chunk > 0,
        total > 0,
    ensures
        num_chunks(total, chunk) > 0,
        forall|i: int|
            0 <= i < num_chunks(total, chunk) - 1 ==> chunk_len(total, chunk, i) == chunk,
        chunk_len(total, chunk, num_chunks(total, chunk) - 1) == if total % chunk == 0 {
            chunk
        } else {
            total % chunk
        },
        forall|i: int|
            0 <= i < num_chunks(total, chunk) ==> (#[trigger] chunk_offset(chunk, i)
                + chunk_len(total, chunk, i) == total <==> i == num_chunks(total, chunk) - 1),
{
    let n = num_chunks(total, chunk);
    assert(n > 0) by (nonlinear_arith)
        requires
            chunk > 0,
            total > 0,
            n == (total + chunk - 1) / chunk,
    ;
    assert forall|i: int| 0 <= i < n - 1 implies chunk_len(total, chunk, i) == chunk by {
        assert((i + 1) * chunk <= total) by (nonlinear_arith)
            requires
                chunk > 0,
                0 <= i < n - 1,
                n == (total + chunk - 1) / chunk,
        ;
    }
    assert((n - 1) * chunk < total && total <= n * chunk) by (nonlinear_arith)
        requires
            chunk > 0,
            total > 0,
            n == (total + chunk - 1) / chunk,
    ;
    assert(((n - 1) + 1) * chunk == n * chunk) by (nonlinear_arith);
    assert((n - 1) * chunk == n * chunk - chunk) by (nonlinear_arith);
    assert(chunk_len(total, chunk, n - 1) == total - (n - 1) * chunk);
    assert(total - (n - 1) * chunk == if total % chunk == 0 {
        chunk
    } else {
        total % chunk
    }) by (nonlinear_arith)
        requires
            chunk > 0,
            (n - 1) * chunk < total,
            total <= n * chunk,
    ;
    assert forall|i: int|
        0 <= i < n implies (#[trigger] chunk_offset(chunk, i) + chunk_len(total, chunk, i) == total
        <==> i == n - 1) by {
        lemma_chunk_bounds(total, chunk, i);
        if i < n - 1 {
            assert(chunk_len(total, chunk, i) == chunk);
            assert(i * chunk + chunk < total) by (nonlinear_arith)
                requires
                    chunk > 0,
                    0 <= i < n - 1,
                    (n - 1) * chunk < total,
            ;
        } else {
            assert(chunk_offset(chunk, i) + chunk_len(total, chunk, i) == total);
        }
    }
}

/// The first `n` chunks of `data`, concatenated, are exactly the first
/// `n*chunk` bytes of `data` (all of it once `n*chunk` passes the end).
pub proof fn lemma_concat_chunks_prefix(data: Seq<u8>, chunk: int, n: int)
    requires
        chunk > 0,
        0 <= n,
        (n - 1) * chunk <= data.len(),
    ensures
        concat_chunks(data, chunk, n) == data.subrange(
            0,
            if n * chunk <= data.len() {
                n * chunk
            } else {
                data.len() as int
            },
        ),
    decreases n,
{
    let total = data.len() as int;
    if n == 0 {
        assert(n * chunk == 0) by (nonlinear_arith)
            requires
                n == 0,
        ;
        assert(concat_chunks(data, chunk, 0) =~= data.subrange(0, 0));
    } else {
        assert((n - 2) * chunk <= (n - 1) * chunk) by (nonlinear_arith)
            requires
                chunk > 0,
                n >= 1,
        ;
        lemma_concat_chunks_prefix(data, chunk, n - 1);
        assert((n - 1) * chunk == n * chunk - chunk) by (nonlinear_arith);
        assert(((n - 1) + 1) * chunk == n * chunk) by (nonlinear_arith);
        let prev_end = (n - 1) * chunk;
        let end = if n * chunk <= total {
            n * chunk
        } else {
            total
        };
        assert(chunk_offset(chunk, n - 1) == prev_end);
        assert(chunk_offset(chunk, n - 1) + chunk_len(total, chunk, n - 1) == end);
        assert(concat_chunks(data, chunk, n) =~= data.subrange(0, prev_end) + data.subrange(
            prev_end,
            end,
        ));
        assert(data.subrange(0, prev_end) + data.subrange(prev_end, end) =~= data.subrange(
            0,
            end,
        ));
        assert(concat_chunks(data, chunk, n) == data.subrange(0, end));
        assert(end == if n * chunk <= data.len() {
            n * chunk
        } else {
            data.len() as int
        });
    }
}

/// Reassembling every chunk of `data`, in order, gives `data` back:
/// the chunk payloads partition the file.
pub proof fn lemma_chunks_reassemble(data: Seq<u8>, chunk: int)
    requires
        chunk > 0,
    ensures
        concat_chunks(data, chunk, num_chunks(data.len() as int, chunk)) == data,
{
    let total = data.len() as int;
    let n = num_chunks(total, chunk);
    assert(n >= 0 && total <= n * chunk && (n - 1) * chunk <= total) by (nonlinear_arith)
        requires
            chunk > 0,
            total >= 0,
            n == (total + chunk - 1) / chunk,
    ;
    lemma_concat_chunks_prefix(data, chunk, n);
    if n * chunk <= total {
        assert(data.subrange(0, total) =~= data);
    } else {
        assert(data.subrange(0, total) =~= data);
    }
}

} // verus!
