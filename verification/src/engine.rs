//! The filter engine: a slot table of live filter instances, each owned by
//! exactly one opaque integer handle, with the six boundary operations.
//!
//! Handles are slot indices into an append-only table; a consumed slot is
//! cleared and never reissued, so a stale handle is detected and reported as
//! [`BloomError::DeadHandle`] instead of being undefined behavior. Merge uses
//! the union semantics: the merged filter reports "maybe present" for
//! anything either input would have reported present.

use vstd::prelude::*;

use fastbloom_rs::BloomFilter;

use crate::filter::{
    adds_bits, bloom_member, filter_add, filter_bits, filter_contains, filter_from_bytes,
    filter_hashes, filter_inv, filter_size, filter_to_bytes, filter_union, new_filter, ors_bytes,
    BLOOM_FILTER_SIZE, NUM_HASHES,
};
use crate::laws::{
    lemma_add_noop_when_member, lemma_adds_bits_member, lemma_adds_bits_preserves_member,
    lemma_union_member,
};

verus! {

/// Ghost model of one live filter instance: the bytes of its bit array and
/// its hash-function count.
#[verifier::ext_equal]
pub ghost struct FilterModel {
    pub bits: Seq<u8>,
    pub hashes: u32,
}

/// The failures the engine reports instead of leaving them undefined.
#[derive(Clone, Copy, PartialEq, Eq, Debug)]
pub enum BloomError {
    /// A handle that was never issued, was already consumed, or stands on
    /// both sides of a merge.
    DeadHandle,
    /// A byte sequence that does not encode a filter.
    MalformedBlob,
    /// Two live filters whose parameters do not match.
    IncompatibleParams,
}

/// The byte sequences accepted as serialized filters: non-empty, a whole
/// number of machine words, and short enough that rebuilding and probing the
/// filter stays within the machine's integer ranges.
pub open spec fn valid_blob(blob: Seq<u8>) -> bool {
    &&& blob.len() >= 1
    &&& blob.len() % 8 == 0
    &&& 8 * blob.len() <= usize::MAX as int
    &&& (NUM_HASHES as int) * 8 * blob.len() <= u64::MAX as int
}

/// What serialize extracts from a live instance: the bytes of its bit array.
pub open spec fn serialize_model(m: FilterModel) -> Seq<u8> {
    m.bits
}

/// What deserialize builds from a valid blob: an instance with exactly those
/// bytes and the engine's fixed hash count.
pub open spec fn deserialize_model(blob: Seq<u8>) -> FilterModel {
    FilterModel { bits: blob, hashes: NUM_HASHES }
}

/// The membership judgement of a modelled instance.
pub open spec fn model_member(m: FilterModel, item: Seq<char>) -> bool {
    bloom_member(m.bits, m.hashes, item)
}

/// A model the engine can actually hold: the fixed hash count and a valid
/// bit array.
pub open spec fn model_wf(m: FilterModel) -> bool {
    &&& m.hashes == NUM_HASHES
    &&& valid_blob(m.bits)
}

/// The model of a freshly initialized instance: all bits zero, the fixed
/// parameters.
pub open spec fn empty_model() -> FilterModel {
    FilterModel { bits: Seq::new(BLOOM_FILTER_SIZE as nat, |i: int| 0u8), hashes: NUM_HASHES }
}

/// A handle that currently denotes a live instance.
pub open spec fn live_handle(slots: Seq<Option<FilterModel>>, h: i64) -> bool {
    &&& 0 <= h < slots.len()
    &&& slots[h as int] is Some
}

/// Two handles a merge can act on: distinct and both live.
pub open spec fn mergeable_handles(slots: Seq<Option<FilterModel>>, left: i64, right: i64) -> bool {
    &&& live_handle(slots, left)
    &&& live_handle(slots, right)
    &&& left != right
}

/// The two instances a merge would combine have bit arrays of the same
/// length.
pub open spec fn merge_sizes_match(slots: Seq<Option<FilterModel>>, left: i64, right: i64) -> bool {
    (slots[left as int]->Some_0).bits.len() == (slots[right as int]->Some_0).bits.len()
}

/// What a successful update does to the slot table: the addressed instance
/// gains exactly the probed bits of `item`, everything else is untouched.
/// The last three conjuncts are the update laws: the item is a member
/// afterwards, no previous member is lost, and re-adding a member leaves the
/// bit pattern unchanged.
pub open spec fn update_transition(
    pre: Seq<Option<FilterModel>>,
    post: Seq<Option<FilterModel>>,
    h: i64,
    item: Seq<char>,
) -> bool {
    let m = pre[h as int]->Some_0;
    let m2 = post[h as int]->Some_0;
    &&& post.len() == pre.len()
    &&& post[h as int] is Some
    &&& forall|j: int| 0 <= j < pre.len() && j != h ==> post[j] == pre[j]
    &&& m2.hashes == m.hashes
    &&& adds_bits(m.bits, m2.bits, m.hashes, item)
    &&& model_member(m2, item)
    &&& forall|x: Seq<char>| #[trigger] model_member(m, x) ==> model_member(m2, x)
    &&& (model_member(m, item) ==> m2.bits == m.bits)
}

/// What a successful union-merge does to the slot table: the left instance
/// becomes the bytewise OR of both, the right slot is consumed, everything
/// else is untouched. The two closing quantifiers are the union law — a
/// member of either input is a member of the result — stated twice so that
/// membership on either side brings it to bear.
pub open spec fn merge_transition(
    pre: Seq<Option<FilterModel>>,
    post: Seq<Option<FilterModel>>,
    left: i64,
    right: i64,
) -> bool {
    let lm = pre[left as int]->Some_0;
    let rm = pre[right as int]->Some_0;
    let m2 = post[left as int]->Some_0;
    &&& post.len() == pre.len()
    &&& post[left as int] is Some
    &&& post[right as int] is None
    &&& forall|j: int| 0 <= j < pre.len() && j != left && j != right ==> post[j] == pre[j]
    &&& m2.hashes == lm.hashes
    &&& ors_bytes(lm.bits, rm.bits, m2.bits)
    &&& forall|x: Seq<char>|
        model_member(lm, x) || #[trigger] model_member(rm, x) ==> model_member(m2, x)
    &&& forall|x: Seq<char>| #[trigger] model_member(lm, x) ==> model_member(m2, x)
}

/// The engine's boundary interface: six operations over integer handles and
/// byte blobs. A handle is issued by `bloom_init_handle` or
/// `bloom_deserialize_handle`, stays valid across `bloom_update_handle`, and
/// dies when it is serialized or consumed as the right-hand side of a merge.
pub trait Extension: Sized {
    /// The model of the engine: one optional instance model per slot ever
    /// issued; `None` marks a consumed slot.
    spec fn slots(&self) -> Seq<Option<FilterModel>>;

    /// The engine's internal well-formedness. It holds of every engine the
    /// crate hands out and is preserved by every operation.
    spec fn inv(&self) -> bool;

    /// Every live slot of a well-formed engine holds a well-formed model.
    proof fn inv_models(&self)
        requires
            self.inv(),
        ensures
            forall|i: int|
                0 <= i < self.slots().len() && self.slots()[i] is Some ==> model_wf(
                    (#[trigger] self.slots()[i])->Some_0,
                ),
    ;

    /// Creates a new empty filter instance with the fixed parameters and
    /// returns a fresh handle to it. Never fails.
    fn bloom_init_handle(&mut self) -> (h: i64)
        requires
            old(self).inv(),
            old(self).slots().len() < i64::MAX as int,
        ensures
            final(self).inv(),
            final(self).slots() == old(self).slots().push(Some(empty_model())),
            h as int == old(self).slots().len(),
    ;

    /// Adds `input` to the instance at `s`, in place, and returns the same
    /// handle, which stays live. A dead or unknown handle is reported and
    /// the engine is left unchanged.
    fn bloom_update_handle(&mut self, s: i64, input: String) -> (r: Result<i64, BloomError>)
        requires
            old(self).inv(),
        ensures
            final(self).inv(),
            !live_handle(old(self).slots(), s) ==> r == Err::<i64, BloomError>(
                BloomError::DeadHandle,
            ) && final(self).slots() == old(self).slots(),
            live_handle(old(self).slots(), s) ==> r == Ok::<i64, BloomError>(s)
                && update_transition(old(self).slots(), final(self).slots(), s, input@),
    ;

    /// Union-merge: ORs the instance at `right` into the instance at `left`,
    /// consumes `right`, and returns `left`. The two handles must be
    /// distinct and live, and the two instances must have the same bit-array
    /// size; otherwise the engine is left unchanged and the misuse is
    /// reported.
    fn bloom_merge_handle(&mut self, left: i64, right: i64) -> (r: Result<i64, BloomError>)
        requires
            old(self).inv(),
        ensures
            final(self).inv(),
            !mergeable_handles(old(self).slots(), left, right) ==> r == Err::<i64, BloomError>(
                BloomError::DeadHandle,
            ) && final(self).slots() == old(self).slots(),
            mergeable_handles(old(self).slots(), left, right) && !merge_sizes_match(
                old(self).slots(),
                left,
                right,
            ) ==> r == Err::<i64, BloomError>(BloomError::IncompatibleParams)
                && final(self).slots() == old(self).slots(),
            mergeable_handles(old(self).slots(), left, right) && merge_sizes_match(
                old(self).slots(),
                left,
                right,
            ) ==> r == Ok::<i64, BloomError>(left) && merge_transition(
                old(self).slots(),
                final(self).slots(),
                left,
                right,
            ),
    ;

    /// Extracts the byte encoding of the instance at `s` and destroys the
    /// instance: the handle is dead as soon as the call returns.
    fn bloom_serialize_handle(&mut self, s: i64) -> (r: Result<Vec<u8>, BloomError>)
        requires
            old(self).inv(),
        ensures
            final(self).inv(),
            !live_handle(old(self).slots(), s) ==> r == Err::<Vec<u8>, BloomError>(
                BloomError::DeadHandle,
            ) && final(self).slots() == old(self).slots(),
            live_handle(old(self).slots(), s) ==> (r matches Ok(blob) && blob@ == serialize_model(
                old(self).slots()[s as int]->Some_0,
            ) && final(self).slots() == old(self).slots().update(s as int, None)),
    ;

    /// Decodes `blob` into a new instance and returns a fresh handle owning
    /// it. A blob that does not encode a filter is reported as malformed and
    /// the engine is left unchanged.
    fn bloom_deserialize_handle(&mut self, blob: Vec<u8>) -> (r: Result<i64, BloomError>)
        requires
            old(self).inv(),
            old(self).slots().len() < i64::MAX as int,
        ensures
            final(self).inv(),
            !valid_blob(blob@) ==> r == Err::<i64, BloomError>(BloomError::MalformedBlob)
                && final(self).slots() == old(self).slots(),
            valid_blob(blob@) ==> r == Ok::<i64, BloomError>(
                old(self).slots().len() as i64,
            ) && final(self).slots() == old(self).slots().push(Some(deserialize_model(blob@))),
    ;

    /// Stateless membership query: rebuilds a transient instance from `blob`
    /// and reports whether every probed bit of `input` is set. No handle is
    /// created. `false` means the item was definitely never added to the
    /// filter the blob encodes; `true` may be a false positive.
    fn bloom_maybe_exists(blob: Vec<u8>, input: String) -> (r: Result<bool, BloomError>)
        ensures
            !valid_blob(blob@) ==> r == Err::<bool, BloomError>(BloomError::MalformedBlob),
            valid_blob(blob@) ==> r == Ok::<bool, BloomError>(
                model_member(deserialize_model(blob@), input@),
            ),
    ;
}

/// One live instance: the trusted filter and its byte length, kept in the
/// clear so that merge can check compatibility without ghost knowledge.
struct Inst {
    filter: BloomFilter,
    nbytes: usize,
}

/// The model of one slot.
spec fn slot_model(slot: Option<Inst>) -> Option<FilterModel> {
    match slot {
        Some(inst) => Some(
            FilterModel { bits: filter_bits(inst.filter), hashes: filter_hashes(inst.filter) },
        ),
        None => None,
    }
}

/// The invariant of one slot: a live instance is internally consistent,
/// carries the engine's fixed hash count, a valid bit array, and an accurate
/// byte length.
spec fn inst_inv(slot: Option<Inst>) -> bool {
    match slot {
        Some(inst) => {
            &&& filter_inv(inst.filter)
            &&& filter_hashes(inst.filter) == NUM_HASHES
            &&& valid_blob(filter_bits(inst.filter))
            &&& inst.nbytes == filter_bits(inst.filter).len()
        },
        None => true,
    }
}

/// The filter engine: an append-only slot table of instances.
pub struct Engine {
    slots: Vec<Option<Inst>>,
}

impl Engine {
    /// A fresh engine that has issued no handles.
    pub fn new() -> (e: Engine)
        ensures
            e.inv(),
            e.slots() == Seq::<Option<FilterModel>>::empty(),
    {
        let e = Engine { slots: Vec::new() };
        proof {
            assert(e.slots() =~= Seq::<Option<FilterModel>>::empty());
        }
        e
    }
}

impl Extension for Engine {
    closed spec fn slots(&self) -> Seq<Option<FilterModel>> {
        Seq::new(self.slots@.len(), |i: int| slot_model(self.slots@[i]))
    }

    closed spec fn inv(&self) -> bool {
        forall|i: int| 0 <= i < self.slots@.len() ==> inst_inv(#[trigger] self.slots@[i])
    }

    proof fn inv_models(&self) {
        assert forall|i: int|
            0 <= i < self.slots().len() && self.slots()[i] is Some implies model_wf(
            (#[trigger] self.slots()[i])->Some_0,
        ) by {
            assert(inst_inv(self.slots@[i]));
        }
    }

    fn bloom_init_handle(&mut self) -> (h: i64) {
        let size_bits: u64 = 8 * BLOOM_FILTER_SIZE;
        let f = new_filter(size_bits, NUM_HASHES);
        let nbytes: usize = BLOOM_FILTER_SIZE as usize;
        let h = self.slots.len() as i64;
        self.slots.push(Some(Inst { filter: f, nbytes }));
        proof {
            assert(usize::MAX >= u32::MAX as usize);
            assert(filter_bits(f) == empty_model().bits);
            assert(filter_bits(f).len() == BLOOM_FILTER_SIZE);
            assert((NUM_HASHES as int) * 8 * filter_bits(f).len() <= u64::MAX as int)
                by (nonlinear_arith)
                requires
                    filter_bits(f).len() == 4 * 1024 * 1024,
                    NUM_HASHES == 100,
            ;
            assert(valid_blob(filter_bits(f)));
            assert(self.slots() =~= old(self).slots().push(Some(empty_model())));
            assert forall|i: int| 0 <= i < self.slots@.len() implies inst_inv(
                #[trigger] self.slots@[i],
            ) by {
                if i < old(self).slots@.len() {
                    assert(inst_inv(old(self).slots@[i]));
                }
            }
        }
        h
    }

    fn bloom_update_handle(&mut self, s: i64, input: String) -> (r: Result<i64, BloomError>) {
        if s < 0 || (s as u64) >= (self.slots.len() as u64) {
            return Err(BloomError::DeadHandle);
        }
        let idx = s as usize;
        let mut taken: Option<Inst> = None;
        core::mem::swap(&mut self.slots[idx], &mut taken);
        match taken {
            None => {
                proof {
                    assert(self.slots@ =~= old(self).slots@);
                    assert(self.slots() =~= old(self).slots());
                }
                Err(BloomError::DeadHandle)
            },
            Some(mut inst) => {
                proof {
                    assert(inst_inv(old(self).slots@[s as int]));
                }
                let ghost pre_bits = filter_bits(inst.filter);
                filter_add(&mut inst.filter, &input);
                let ghost post_bits = filter_bits(inst.filter);
                proof {
                    assert(adds_bits(pre_bits, post_bits, NUM_HASHES, input@));
                    lemma_adds_bits_member(pre_bits, post_bits, NUM_HASHES, input@);
                    if bloom_member(pre_bits, NUM_HASHES, input@) {
                        lemma_add_noop_when_member(pre_bits, post_bits, NUM_HASHES, input@);
                    }
                    assert forall|x: Seq<char>| #[trigger] bloom_member(
                        pre_bits,
                        NUM_HASHES,
                        x,
                    ) implies bloom_member(post_bits, NUM_HASHES, x) by {
                        lemma_adds_bits_preserves_member(pre_bits, post_bits, NUM_HASHES, input@, x);
                    }
                }
                self.slots[idx] = Some(inst);
                proof {
                    assert(self.slots() =~= old(self).slots().update(
                        s as int,
                        Some(FilterModel { bits: post_bits, hashes: NUM_HASHES }),
                    ));
                    assert forall|i: int| 0 <= i < self.slots@.len() implies inst_inv(
                        #[trigger] self.slots@[i],
                    ) by {
                        if i != s as int {
                            assert(inst_inv(old(self).slots@[i]));
                        }
                    }
                    assert(update_transition(old(self).slots(), self.slots(), s, input@));
                }
                Ok(s)
            },
        }
    }

    fn bloom_merge_handle(&mut self, left: i64, right: i64) -> (r: Result<i64, BloomError>) {
        if left < 0 || (left as u64) >= (self.slots.len() as u64) {
            return Err(BloomError::DeadHandle);
        }
        if right < 0 || (right as u64) >= (self.slots.len() as u64) {
            return Err(BloomError::DeadHandle);
        }
        if left == right {
            return Err(BloomError::DeadHandle);
        }
        let lidx = left as usize;
        let ridx = right as usize;
        let mut rslot: Option<Inst> = None;
        core::mem::swap(&mut self.slots[ridx], &mut rslot);
        let rinst = match rslot {
            None => {
                proof {
                    assert(self.slots@ =~= old(self).slots@);
                    assert(self.slots() =~= old(self).slots());
                }
                return Err(BloomError::DeadHandle);
            },
            Some(ri) => ri,
        };
        let mut lslot: Option<Inst> = None;
        core::mem::swap(&mut self.slots[lidx], &mut lslot);
        let mut linst = match lslot {
            None => {
                self.slots[ridx] = Some(rinst);
                proof {
                    assert(self.slots@ =~= old(self).slots@);
                    assert(self.slots() =~= old(self).slots());
                }
                return Err(BloomError::DeadHandle);
            },
            Some(li) => li,
        };
        proof {
            assert(inst_inv(old(self).slots@[left as int]));
            assert(inst_inv(old(self).slots@[right as int]));
        }
        if linst.nbytes != rinst.nbytes {
            self.slots[lidx] = Some(linst);
            self.slots[ridx] = Some(rinst);
            proof {
                assert(self.slots@ =~= old(self).slots@);
                assert(self.slots() =~= old(self).slots());
            }
            return Err(BloomError::IncompatibleParams);
        }
        let ghost l_bits = filter_bits(linst.filter);
        let ghost r_bits = filter_bits(rinst.filter);
        let merged = filter_union(&mut linst.filter, &rinst.filter);
        let ghost post_bits = filter_bits(linst.filter);
        let ghost lm = FilterModel { bits: l_bits, hashes: NUM_HASHES };
        let ghost rm = FilterModel { bits: r_bits, hashes: NUM_HASHES };
        let ghost m2 = FilterModel { bits: post_bits, hashes: NUM_HASHES };
        proof {
            assert(merged);
            assert forall|x: Seq<char>|
                model_member(lm, x) || #[trigger] model_member(rm, x) implies model_member(
                m2,
                x,
            ) by {
                lemma_union_member(l_bits, r_bits, post_bits, NUM_HASHES, x);
            }
            assert forall|x: Seq<char>| #[trigger] model_member(lm, x) implies model_member(
                m2,
                x,
            ) by {
                lemma_union_member(l_bits, r_bits, post_bits, NUM_HASHES, x);
            }
        }
        self.slots[lidx] = Some(linst);
        proof {
            assert(self.slots() =~= old(self).slots().update(
                left as int,
                Some(FilterModel { bits: post_bits, hashes: NUM_HASHES }),
            ).update(right as int, None));
            assert(old(self).slots()[left as int]->Some_0 =~= lm);
            assert(old(self).slots()[right as int]->Some_0 =~= rm);
            assert(self.slots()[left as int]->Some_0 =~= m2);
            assert forall|i: int| 0 <= i < self.slots@.len() implies inst_inv(
                #[trigger] self.slots@[i],
            ) by {
                if i != left as int && i != right as int {
                    assert(inst_inv(old(self).slots@[i]));
                }
            }
            assert(merge_transition(old(self).slots(), self.slots(), left, right));
        }
        Ok(left)
    }

    fn bloom_serialize_handle(&mut self, s: i64) -> (r: Result<Vec<u8>, BloomError>) {
        if s < 0 || (s as u64) >= (self.slots.len() as u64) {
            return Err(BloomError::DeadHandle);
        }
        let idx = s as usize;
        let mut taken: Option<Inst> = None;
        core::mem::swap(&mut self.slots[idx], &mut taken);
        match taken {
            None => {
                proof {
                    assert(self.slots@ =~= old(self).slots@);
                    assert(self.slots() =~= old(self).slots());
                }
                Err(BloomError::DeadHandle)
            },
            Some(inst) => {
                proof {
                    assert(inst_inv(old(self).slots@[s as int]));
                }
                let blob = filter_to_bytes(&inst.filter);
                proof {
                    assert(self.slots() =~= old(self).slots().update(s as int, None));
                    assert forall|i: int| 0 <= i < self.slots@.len() implies inst_inv(
                        #[trigger] self.slots@[i],
                    ) by {
                        if i != s as int {
                            assert(inst_inv(old(self).slots@[i]));
                        }
                    }
                }
                Ok(blob)
            },
        }
    }

    fn bloom_deserialize_handle(&mut self, blob: Vec<u8>) -> (r: Result<i64, BloomError>) {
        if !check_blob(&blob) {
            return Err(BloomError::MalformedBlob);
        }
        let f = filter_from_bytes(&blob, NUM_HASHES);
        let nbytes: usize = blob.len();
        let h = self.slots.len() as i64;
        self.slots.push(Some(Inst { filter: f, nbytes }));
        proof {
            assert(self.slots() =~= old(self).slots().push(Some(deserialize_model(blob@))));
            assert forall|i: int| 0 <= i < self.slots@.len() implies inst_inv(
                #[trigger] self.slots@[i],
            ) by {
                if i < old(self).slots@.len() {
                    assert(inst_inv(old(self).slots@[i]));
                }
            }
        }
        Ok(h)
    }

    fn bloom_maybe_exists(blob: Vec<u8>, input: String) -> (r: Result<bool, BloomError>) {
        if !check_blob(&blob) {
            return Err(BloomError::MalformedBlob);
        }
        let f = filter_from_bytes(&blob, NUM_HASHES);
        proof {
            assert((NUM_HASHES as int) * 8 * blob@.len() <= u64::MAX as int);
            assert((filter_hashes(f) as int) * (filter_size(f) as int) == (NUM_HASHES as int) * 8
                * blob@.len()) by (nonlinear_arith)
                requires
                    filter_hashes(f) == NUM_HASHES,
                    filter_size(f) == 8 * blob@.len(),
            ;
        }
        let present = filter_contains(&f, &input);
        Ok(present)
    }
}

/// Checks that `blob` is a structurally valid serialized filter.
fn check_blob(blob: &Vec<u8>) -> (ok: bool)
    ensures
        ok == valid_blob(blob@),
{
    if blob.len() < 1 {
        return false;
    }
    if blob.len() % 8 != 0 {
        return false;
    }
    let len128: u128 = blob.len() as u128;
    if 8 * len128 > (usize::MAX as u128) {
        return false;
    }
    proof {
        assert(len128 <= u64::MAX as u128);
        assert((NUM_HASHES as u128) * 8 * len128 <= (u64::MAX as u128) * 800) by (nonlinear_arith)
            requires
                len128 <= u64::MAX as u128,
                NUM_HASHES == 100,
        ;
    }
    if (NUM_HASHES as u128) * 8 * len128 > (u64::MAX as u128) {
        return false;
    }
    true
}

} // verus!
