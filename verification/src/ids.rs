//! The transfer identity: a 64-bit value derived deterministically from
//! the source path and the file size. Two different files that hash
//! alike would silently share one output on the receiver; nothing here
//! avoids that beyond the hash's distribution.
use crate::codec::u64_le_bytes;
use std::collections::hash_map::DefaultHasher;
use std::hash::Hasher;
use vstd::prelude::*;
use vstd::std_specs::hash::DefaultHasherAdditionalSpecFns;
use vstd::string::StringSliceAdditionalSpecFns;

verus! {

/// The identity of the transfer of `path`'s file of `size` bytes: the
/// standard hasher's digest of the path's bytes followed by the size's
/// little-endian bytes.
pub open spec fn spec_transfer_id(path: &str, size: u64) -> u64 {
    DefaultHasher::spec_finish(seq![path.spec_bytes(), u64_le_bytes(size)])
}

/// Derives the transfer identity of `path` and `size`.
pub fn transfer_id(path: &str, size: u64) -> (r: u64)
    ensures
        r == spec_transfer_id(path, size),
{
    let mut hasher = DefaultHasher::new();
    hasher.write(path.as_bytes());
    let mut size_bytes: Vec<u8> = Vec::new();
    crate::codec::push_u64_le(&mut size_bytes, size);
    hasher.write(size_bytes.as_slice());
    assert(hasher@ =~= seq![path.spec_bytes(), u64_le_bytes(size)]);
    hasher.finish()
}

} // verus!
