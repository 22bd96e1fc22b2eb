//! The two hash functions of the tree: one for items, one for triples of
//! child hashes. Both feed `std`'s `DefaultHasher`, which starts from fixed
//! keys and is therefore a function of the bytes written to it.

use std::collections::hash_map::DefaultHasher;
use std::hash::Hasher;
use vstd::bytes::{spec_u64_to_le_bytes, u64_to_le_bytes};
use vstd::prelude::*;
use vstd::std_specs::hash::DefaultHasherAdditionalSpecFns;
use vstd::utf8::encode_utf8;

verus! {

/// The byte that closes an item. It occurs in no UTF-8 text, so the bytes
/// written for one item are never a prefix of those written for another.
pub const ITEM_END: u8 = 0xff;

/// Hash of an item: the hasher's result after the item's UTF-8 bytes and
/// then the closing byte were written to a fresh hasher.
pub open spec fn spec_hash_item(data: Seq<char>) -> u64 {
    DefaultHasher::spec_finish(seq![encode_utf8(data), seq![ITEM_END]])
}

/// Hash of a branch: the hasher's result after the little-endian bytes of
/// the left, middle and right child hashes were written, in that order.
pub open spec fn spec_aggregate(left: u64, middle: u64, right: u64) -> u64 {
    DefaultHasher::spec_finish(
        seq![
            spec_u64_to_le_bytes(left),
            spec_u64_to_le_bytes(middle),
            spec_u64_to_le_bytes(right),
        ],
    )
}

/// Computes the hash of one item.
pub fn hash_item(data: &str) -> (h: u64)
    ensures
        h == spec_hash_item(data@),
{
    let mut hasher = DefaultHasher::new();
    hasher.write(data.as_bytes());
    let end: [u8; 1] = [ITEM_END];
    hasher.write(end.as_slice());
    assert(hasher@ =~= seq![encode_utf8(data@), seq![ITEM_END]]) by {
        assert(end@ =~= seq![ITEM_END]);
    }
    hasher.finish()
}

/// Computes the hash of a branch from the hashes of its three children.
pub fn aggregate(left: u64, middle: u64, right: u64) -> (h: u64)
    ensures
        h == spec_aggregate(left, middle, right),
{
    let mut hasher = DefaultHasher::new();
    let l = u64_to_le_bytes(left);
    hasher.write(l.as_slice());
    let m = u64_to_le_bytes(middle);
    hasher.write(m.as_slice());
    let r = u64_to_le_bytes(right);
    hasher.write(r.as_slice());
    assert(hasher@ =~= seq![
        spec_u64_to_le_bytes(left),
        spec_u64_to_le_bytes(middle),
        spec_u64_to_le_bytes(right),
    ]);
    hasher.finish()
}

} // verus!
