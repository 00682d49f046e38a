//! The membership laws of the filter: stated once, over the same bit-level
//! predicates the operation contracts use, and proved with no appeal to the
//! trusted wrappers.

use vstd::prelude::*;

use crate::bits::{bit_at, lemma_byte_or_bit, lemma_bytes_from_bits};
use crate::engine::{deserialize_model, model_member, model_wf, serialize_model, FilterModel};
use crate::filter::{adds_bits, bloom_member, hash_positions, ors_bytes};

verus! {

/// An added item is a member afterwards: one `add` sets every position the
/// item probes.
pub proof fn lemma_adds_bits_member(pre: Seq<u8>, post: Seq<u8>, k: u32, item: Seq<char>)
    requires
        adds_bits(pre, post, k, item),
    ensures
        bloom_member(post, k, item),
{
    assert forall|i: int|
        0 <= i < 8 * post.len() && hash_positions(item, (8 * post.len()) as nat, k).contains(
            i,
        ) implies bit_at(post, i) by {
        assert(bit_at(post, i) == (bit_at(pre, i) || hash_positions(
            item,
            (8 * pre.len()) as nat,
            k,
        ).contains(i)));
    }
}

/// Setting more bits never loses a member: membership is monotone in the
/// bit array.
pub proof fn lemma_member_monotone(pre: Seq<u8>, post: Seq<u8>, k: u32, item: Seq<char>)
    requires
        post.len() == pre.len(),
        forall|i: int| 0 <= i < 8 * pre.len() && #[trigger] bit_at(pre, i) ==> bit_at(post, i),
        bloom_member(pre, k, item),
    ensures
        bloom_member(post, k, item),
{
    assert forall|i: int|
        0 <= i < 8 * post.len() && hash_positions(item, (8 * post.len()) as nat, k).contains(
            i,
        ) implies bit_at(post, i) by {
        assert(bit_at(pre, i));
    }
}

/// One `add` keeps every item that was already a member.
pub proof fn lemma_adds_bits_preserves_member(
    pre: Seq<u8>,
    post: Seq<u8>,
    k: u32,
    item: Seq<char>,
    other: Seq<char>,
)
    requires
        adds_bits(pre, post, k, item),
        bloom_member(pre, k, other),
    ensures
        bloom_member(post, k, other),
{
    assert forall|i: int| 0 <= i < 8 * pre.len() && #[trigger] bit_at(pre, i) implies bit_at(
        post,
        i,
    ) by {
        assert(bit_at(post, i) == (bit_at(pre, i) || hash_positions(
            item,
            (8 * pre.len()) as nat,
            k,
        ).contains(i)));
    }
    lemma_member_monotone(pre, post, k, other);
}

/// Adding an item that is already a member leaves the bit pattern
/// unchanged; together with [`lemma_adds_bits_member`] this gives the
/// idempotence of update.
pub proof fn lemma_add_noop_when_member(pre: Seq<u8>, post: Seq<u8>, k: u32, item: Seq<char>)
    requires
        adds_bits(pre, post, k, item),
        bloom_member(pre, k, item),
    ensures
        post == pre,
{
    assert forall|i: int| 0 <= i < 8 * post.len() implies bit_at(post, i) == bit_at(pre, i) by {
        if hash_positions(item, (8 * pre.len()) as nat, k).contains(i) {
            assert(bit_at(pre, i));
        }
        assert(bit_at(post, i) == (bit_at(pre, i) || hash_positions(
            item,
            (8 * pre.len()) as nat,
            k,
        ).contains(i)));
    }
    lemma_bytes_from_bits(post, pre);
}

/// Idempotence of update: adding the same item twice yields the same bit
/// pattern as adding it once.
pub proof fn lemma_update_idempotent(
    b0: Seq<u8>,
    b1: Seq<u8>,
    b2: Seq<u8>,
    k: u32,
    item: Seq<char>,
)
    requires
        adds_bits(b0, b1, k, item),
        adds_bits(b1, b2, k, item),
    ensures
        b2 == b1,
{
    lemma_adds_bits_member(b0, b1, k, item);
    lemma_add_noop_when_member(b1, b2, k, item);
}

/// Bytewise OR is bitwise OR.
pub proof fn lemma_ors_bytes_bit(left: Seq<u8>, right: Seq<u8>, out: Seq<u8>, i: int)
    requires
        ors_bytes(left, right, out),
        0 <= i < 8 * out.len(),
    ensures
        bit_at(out, i) == (bit_at(left, i) || bit_at(right, i)),
{
    assert(0 <= i / 8 < out.len()) by (nonlinear_arith)
        requires
            0 <= i < 8 * out.len(),
    ;
    assert(out[i / 8] == (left[i / 8] | right[i / 8]));
    lemma_byte_or_bit(left[i / 8], right[i / 8], (i % 8) as u8);
}

/// Union-merge monotonicity: the bytewise OR of two bit arrays keeps every
/// member of either side.
pub proof fn lemma_union_member(
    left: Seq<u8>,
    right: Seq<u8>,
    out: Seq<u8>,
    k: u32,
    item: Seq<char>,
)
    requires
        ors_bytes(left, right, out),
        bloom_member(left, k, item) || bloom_member(right, k, item),
    ensures
        bloom_member(out, k, item),
{
    assert forall|i: int|
        0 <= i < 8 * out.len() && hash_positions(item, (8 * out.len()) as nat, k).contains(
            i,
        ) implies bit_at(out, i) by {
        lemma_ors_bytes_bit(left, right, out, i);
        if bloom_member(left, k, item) {
            assert(bit_at(left, i));
        } else {
            assert(bit_at(right, i));
        }
    }
}

/// No false negatives across the serialize boundary: a member of a live
/// instance is still reported present when the instance's serialized bytes
/// are queried statelessly.
pub proof fn lemma_member_survives_serialize(m: FilterModel, item: Seq<char>)
    requires
        model_wf(m),
        model_member(m, item),
    ensures
        model_member(deserialize_model(serialize_model(m)), item),
{
    lemma_round_trip(m);
}

/// Round trip: a filter rebuilt from its own serialized bytes has the same
/// model, and therefore answers every membership query exactly as the
/// original instance did.
pub proof fn lemma_round_trip(m: FilterModel)
    requires
        model_wf(m),
    ensures
        deserialize_model(serialize_model(m)) == m,
        forall|item: Seq<char>|
            model_member(deserialize_model(serialize_model(m)), item) == #[trigger] model_member(
                m,
                item,
            ),
{
    assert(deserialize_model(serialize_model(m)) =~= m);
}

} // verus!
