//! The trusted boundary to `fastbloom_rs`: the filter type is declared
//! opaque, its byte contents, hash count and recorded bit size are given
//! names, and each primitive the engine calls is wrapped with the contract
//! its source shows.
//!
//! `fastbloom_rs` probes a filter of `m` bits with `k` hash functions by
//! deriving `k` bit positions from the item's bytes alone; the positions are
//! named by [`hash_positions`] and never written out, so nothing here
//! restates the hash algorithm.

use vstd::prelude::*;

use fastbloom_rs::{BloomFilter, FilterBuilder, Membership};

use crate::bits::bit_at;

verus! {

/// Number of hash functions every filter built by `bloom_init_handle` uses.
pub const NUM_HASHES: u32 = 100;

/// Size in bytes of the bit array of a filter built by `bloom_init_handle`.
pub const BLOOM_FILTER_SIZE: u64 = 4 * 1024 * 1024;

#[verifier::external_type_specification]
#[verifier::external_body]
pub struct ExBloomFilter(BloomFilter);

/// The bytes of the filter's bit array, exactly as `get_u8_array` exposes
/// them.
pub uninterp spec fn filter_bits(f: BloomFilter) -> Seq<u8>;

/// The hash-function count the filter was built with.
pub uninterp spec fn filter_hashes(f: BloomFilter) -> u32;

/// The bit size the filter was built with: probe positions are reduced
/// modulo this value.
pub uninterp spec fn filter_size(f: BloomFilter) -> u64;

/// The set of bit positions a filter of `m` bits with `k` hash functions
/// probes for the UTF-8 bytes of `item`. This names the result of
/// `fastbloom_rs`'s position computation (`get_hash_indices`); it depends on
/// its three arguments alone, and every position it yields lies below `m`.
pub uninterp spec fn hash_positions(item: Seq<char>, m: nat, k: u32) -> Set<int>;

/// A filter whose recorded bit size matches its byte storage. Filters built
/// by the wrappers below always satisfy this; `fastbloom_rs` has other
/// constructors that do not, and the mutating wrappers are only trusted on
/// filters of this shape.
pub open spec fn filter_inv(f: BloomFilter) -> bool {
    filter_size(f) == 8 * filter_bits(f).len()
}

/// The membership judgement of a bloom filter: every probed position of
/// `item` is set in `bits`.
pub open spec fn bloom_member(bits: Seq<u8>, k: u32, item: Seq<char>) -> bool {
    forall|i: int|
        0 <= i < 8 * bits.len() && #[trigger] hash_positions(
            item,
            (8 * bits.len()) as nat,
            k,
        ).contains(i) ==> bit_at(bits, i)
}

/// How one `add` of `item` changes a bit array: every probed position is
/// set, every other bit keeps its value.
pub open spec fn adds_bits(pre: Seq<u8>, post: Seq<u8>, k: u32, item: Seq<char>) -> bool {
    &&& post.len() == pre.len()
    &&& forall|i: int|
        0 <= i < 8 * pre.len() ==> #[trigger] bit_at(post, i) == (bit_at(pre, i)
            || hash_positions(item, (8 * pre.len()) as nat, k).contains(i))
}

/// `out` is the bytewise OR of `left` and `right`.
pub open spec fn ors_bytes(left: Seq<u8>, right: Seq<u8>, out: Seq<u8>) -> bool {
    &&& left.len() == right.len()
    &&& out.len() == left.len()
    &&& forall|j: int| 0 <= j < out.len() ==> #[trigger] out[j] == (left[j] | right[j])
}

/// Relies on `FilterBuilder::from_size_and_hashes` and
/// `build_bloom_filter`: a fresh filter with `size_bits` zeroed bits stored
/// as whole machine words (hence the divisibility premise) and `hashes`
/// hash functions.
#[verifier::external_body]
pub(crate) fn new_filter(size_bits: u64, hashes: u32) -> (f: BloomFilter)
    requires
        size_bits % 64 == 0,
    ensures
        filter_bits(f) == Seq::new((size_bits / 8) as nat, |i: int| 0u8),
        filter_hashes(f) == hashes,
        filter_size(f) == size_bits,
{
    let mut builder = FilterBuilder::from_size_and_hashes(size_bits, hashes);
    builder.build_bloom_filter()
}

/// Relies on `Membership::add` for `BloomFilter`: sets exactly the probed
/// positions of `item`'s bytes. The arithmetic premises keep the crate's
/// probe computation (`hash1 + i * hash2` reduced modulo the bit size, then
/// cast to `usize`) within `u64` and within the machine's address width.
#[verifier::external_body]
pub(crate) fn filter_add(f: &mut BloomFilter, item: &String)
    requires
        filter_inv(*old(f)),
        filter_bits(*old(f)).len() >= 1,
        filter_size(*old(f)) <= usize::MAX as u64,
        (filter_hashes(*old(f)) as int) * (filter_size(*old(f)) as int) <= u64::MAX as int,
    ensures
        filter_hashes(*final(f)) == filter_hashes(*old(f)),
        filter_size(*final(f)) == filter_size(*old(f)),
        filter_bits(*final(f)).len() == filter_bits(*old(f)).len(),
        forall|i: int|
            0 <= i < 8 * filter_bits(*old(f)).len() ==> #[trigger] bit_at(
                filter_bits(*final(f)),
                i,
            ) == (bit_at(filter_bits(*old(f)), i) || hash_positions(
                item@,
                (8 * filter_bits(*old(f)).len()) as nat,
                filter_hashes(*old(f)),
            ).contains(i)),
{
    f.add(item.as_bytes());
}

/// Relies on `Membership::contains` for `BloomFilter`: true exactly when
/// every probed position of `item`'s bytes is set. Same arithmetic premises
/// as the add wrapper.
#[verifier::external_body]
pub(crate) fn filter_contains(f: &BloomFilter, item: &String) -> (r: bool)
    requires
        filter_inv(*f),
        filter_bits(*f).len() >= 1,
        filter_size(*f) <= usize::MAX as u64,
        (filter_hashes(*f) as int) * (filter_size(*f) as int) <= u64::MAX as int,
    ensures
        r == bloom_member(filter_bits(*f), filter_hashes(*f), item@),
{
    f.contains(item.as_bytes())
}

/// Relies on `BloomFilter::union`: when both filters were built with the
/// same bit size and hash count it ORs `other`'s words into `f` and returns
/// true; otherwise it returns false and leaves `f` unchanged.
#[verifier::external_body]
pub(crate) fn filter_union(f: &mut BloomFilter, other: &BloomFilter) -> (r: bool)
    requires
        filter_inv(*old(f)),
        filter_inv(*other),
    ensures
        r == (filter_size(*old(f)) == filter_size(*other) && filter_hashes(*old(f))
            == filter_hashes(*other)),
        filter_hashes(*final(f)) == filter_hashes(*old(f)),
        filter_size(*final(f)) == filter_size(*old(f)),
        r ==> ors_bytes(filter_bits(*old(f)), filter_bits(*other), filter_bits(*final(f))),
        !r ==> filter_bits(*final(f)) == filter_bits(*old(f)),
{
    f.union(other)
}

/// Relies on `BloomFilter::get_u8_array`: the raw bytes of the bit array.
#[verifier::external_body]
pub(crate) fn filter_to_bytes(f: &BloomFilter) -> (r: Vec<u8>)
    ensures
        r@ == filter_bits(*f),
{
    f.get_u8_array().to_vec()
}

/// Relies on `BloomFilter::from_u8_array`: rebuilds a filter whose bit array
/// is exactly `blob` and whose hash count is `hashes`. The length premises
/// make the byte count a whole number of machine words and keep the crate's
/// `len * 8` size computation in range.
#[verifier::external_body]
pub(crate) fn filter_from_bytes(blob: &Vec<u8>, hashes: u32) -> (f: BloomFilter)
    requires
        blob@.len() % 8 == 0,
        8 * blob@.len() <= usize::MAX as int,
    ensures
        filter_bits(f) == blob@,
        filter_hashes(f) == hashes,
        filter_size(f) == 8 * blob@.len(),
{
    BloomFilter::from_u8_array(blob.as_slice(), hashes)
}

} // verus!
