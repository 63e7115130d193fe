//! Per-owner bitmap of occupied User Actor slots.
use vstd::prelude::*;

use std::collections::HashMap;

use crate::errors::Error;
use crate::types::{AccountId, ActorId};

verus! {

broadcast use vstd::std_specs::hash::group_hash_axioms;

/// One bit per owner slot: slot `s` is bit `s % 8` of byte `s / 8`.
pub type OwnerSlotBitmap = [u8; 32];

/// Bit `bit` of `byte` is set.
pub open spec fn bit_set(byte: u8, bit: u8) -> bool {
    (byte >> bit) & 1u8 == 1u8
}

/// Slot `slot` of the bitmap is occupied.
pub open spec fn slot_occupied(bitmap: OwnerSlotBitmap, slot: int) -> bool {
    bit_set(bitmap@[slot / 8], (slot % 8) as u8)
}

/// No slot at or past `max_slots` is occupied, and at least one slot exists.
pub open spec fn spec_bitmap_valid(bitmap: OwnerSlotBitmap, max_slots: u8) -> bool {
    &&& max_slots > 0
    &&& forall|s: int| max_slots <= s < 256 ==> !#[trigger] slot_occupied(bitmap, s)
}

proof fn lemma_mask_bit(b: u8, k: u8)
    requires
        k < 8,
    ensures
        (b & (1u8 << k) != 0) == bit_set(b, k),
        bit_set(b | (1u8 << k), k),
        !bit_set(b & !(1u8 << k), k),
        forall|j: u8| j < 8 && j != k ==> bit_set(#[trigger] (b | (1u8 << k)), j) == bit_set(b, j),
        forall|j: u8| j < 8 && j != k ==> bit_set(#[trigger] (b & !(1u8 << k)), j) == bit_set(b, j),
{
    assert((b & (1u8 << k) != 0) == ((b >> k) & 1u8 == 1u8)) by (bit_vector)
        requires
            k < 8,
    ;
    assert(((b | (1u8 << k)) >> k) & 1u8 == 1u8) by (bit_vector)
        requires
            k < 8,
    ;
    assert(((b & !(1u8 << k)) >> k) & 1u8 != 1u8) by (bit_vector)
        requires
            k < 8,
    ;
    assert forall|j: u8| j < 8 && j != k implies bit_set(#[trigger] (b | (1u8 << k)), j) == bit_set(b, j) by {
        assert((((b | (1u8 << k)) >> j) & 1u8 == 1u8) == ((b >> j) & 1u8 == 1u8)) by (bit_vector)
            requires
                k < 8,
                j < 8,
                j != k,
        ;
    }
    assert forall|j: u8| j < 8 && j != k implies bit_set(#[trigger] (b & !(1u8 << k)), j) == bit_set(b, j) by {
        assert((((b & !(1u8 << k)) >> j) & 1u8 == 1u8) == ((b >> j) & 1u8 == 1u8)) by (bit_vector)
            requires
                k < 8,
                j < 8,
                j != k,
        ;
    }
}

/// Whether `owner_slot` is occupied.
pub fn owner_slot_is_set(bitmap: &OwnerSlotBitmap, owner_slot: u8) -> (r: bool)
    ensures
        r == slot_occupied(*bitmap, owner_slot as int),
{
    let byte = (owner_slot / 8) as usize;
    let bit = owner_slot % 8;
    proof {
        lemma_mask_bit(bitmap@[byte as int], bit);
    }
    bitmap[byte] & (1u8 << bit) != 0
}

/// Marks `owner_slot` occupied and leaves every other slot as it was.
pub fn set_owner_slot(bitmap: &mut OwnerSlotBitmap, owner_slot: u8)
    ensures
        slot_occupied(*final(bitmap), owner_slot as int),
        forall|s: int| 0 <= s < 256 && s != owner_slot ==> #[trigger] slot_occupied(*final(bitmap), s)
            == slot_occupied(*old(bitmap), s),
{
    let byte = (owner_slot / 8) as usize;
    let bit = owner_slot % 8;
    let ghost b = old(bitmap)@[byte as int];
    proof {
        lemma_mask_bit(b, bit);
    }
    bitmap[byte] = bitmap[byte] | (1u8 << bit);
    proof {
        assert forall|s: int| 0 <= s < 256 && s != owner_slot implies #[trigger] slot_occupied(*bitmap, s)
            == slot_occupied(*old(bitmap), s) by {
            if s / 8 == byte as int {
                assert((s % 8) as u8 != bit);
            }
        }
    }
}

/// Marks `owner_slot` free and leaves every other slot as it was.
pub fn clear_owner_slot(bitmap: &mut OwnerSlotBitmap, owner_slot: u8)
    ensures
        !slot_occupied(*final(bitmap), owner_slot as int),
        forall|s: int| 0 <= s < 256 && s != owner_slot ==> #[trigger] slot_occupied(*final(bitmap), s)
            == slot_occupied(*old(bitmap), s),
{
    let byte = (owner_slot / 8) as usize;
    let bit = owner_slot % 8;
    let ghost b = old(bitmap)@[byte as int];
    proof {
        lemma_mask_bit(b, bit);
    }
    bitmap[byte] = bitmap[byte] & !(1u8 << bit);
    proof {
        assert forall|s: int| 0 <= s < 256 && s != owner_slot implies #[trigger] slot_occupied(*bitmap, s)
            == slot_occupied(*old(bitmap), s) by {
            if s / 8 == byte as int {
                assert((s % 8) as u8 != bit);
            }
        }
    }
}

proof fn lemma_zero_byte(b: u8)
    ensures
        (b == 0) == (forall|k: u8| k < 8 ==> !#[trigger] bit_set(b, k)),
{
    assert(b == 0 ==> (b >> 0u8) & 1u8 == 0) by (bit_vector);
    if b != 0 {
        assert(b != 0 ==> (b >> 0u8) & 1u8 == 1u8 || (b >> 1u8) & 1u8 == 1u8 || (b >> 2u8) & 1u8 == 1u8
            || (b >> 3u8) & 1u8 == 1u8 || (b >> 4u8) & 1u8 == 1u8 || (b >> 5u8) & 1u8 == 1u8 || (b
            >> 6u8) & 1u8 == 1u8 || (b >> 7u8) & 1u8 == 1u8) by (bit_vector);
        assert(!forall|k: u8| k < 8 ==> !#[trigger] bit_set(b, k)) by {
            if bit_set(b, 0) {
            } else if bit_set(b, 1) {
            } else if bit_set(b, 2) {
            } else if bit_set(b, 3) {
            } else if bit_set(b, 4) {
            } else if bit_set(b, 5) {
            } else if bit_set(b, 6) {
            } else {
                assert(bit_set(b, 7));
            }
        }
    } else {
        assert forall|k: u8| k < 8 implies !#[trigger] bit_set(b, k) by {
            assert(b == 0 ==> (b >> k) & 1u8 == 0) by (bit_vector);
        }
    }
}

/// A byte has no bit at or above `r` (`0 < r < 8`).
proof fn lemma_high_bits(b: u8, r: u8)
    requires
        0 < r < 8,
    ensures
        (b & !(((1u8 << r) - 1) as u8) == 0) == (forall|k: u8| r <= k < 8 ==> !#[trigger] bit_set(b, k)),
{
    let m = ((1u8 << r) - 1) as u8;
    assert forall|k: u8| r <= k < 8 && (b & !m == 0) implies !#[trigger] bit_set(b, k) by {
        assert((b & !(((1u8 << r) - 1) as u8) == 0) && r <= k < 8 && 0 < r ==> (b >> k) & 1u8 == 0) by (bit_vector);
    }
    if b & !m != 0 {
        assert(0 < r < 8 && (b & !(((1u8 << r) - 1) as u8) != 0) ==> ((r <= 1 && (b >> 1u8) & 1u8 == 1u8) || (r
            <= 2 && (b >> 2u8) & 1u8 == 1u8) || (r <= 3 && (b >> 3u8) & 1u8 == 1u8) || (r <= 4 && (b
            >> 4u8) & 1u8 == 1u8) || (r <= 5 && (b >> 5u8) & 1u8 == 1u8) || (r <= 6 && (b >> 6u8)
            & 1u8 == 1u8) || (r <= 7 && (b >> 7u8) & 1u8 == 1u8))) by (bit_vector);
        assert(!forall|k: u8| r <= k < 8 ==> !#[trigger] bit_set(b, k)) by {
            if r <= 1 && bit_set(b, 1) {
            } else if r <= 2 && bit_set(b, 2) {
            } else if r <= 3 && bit_set(b, 3) {
            } else if r <= 4 && bit_set(b, 4) {
            } else if r <= 5 && bit_set(b, 5) {
            } else if r <= 6 && bit_set(b, 6) {
            } else {
                assert(bit_set(b, 7));
            }
        }
    }
}

/// Whether the bitmap occupies no slot at or past `max_slots`; a zero slot limit admits no
/// bitmap.
pub fn owner_slot_bitmap_is_valid(bitmap: &OwnerSlotBitmap, max_slots: u8) -> (r: bool)
    ensures
        r == spec_bitmap_valid(*bitmap, max_slots),
{
    if max_slots == 0 {
        return false;
    }
    let full_bytes = (max_slots / 8) as usize;
    let remaining_bits = max_slots % 8;
    let mut index: usize = 0;
    while index < 32
        invariant
            0 <= index <= 32,
            max_slots > 0,
            full_bytes == max_slots / 8,
            remaining_bits == max_slots % 8,
            forall|s: int| max_slots <= s < 8 * index ==> !#[trigger] slot_occupied(*bitmap, s),
        decreases 32 - index,
    {
        let byte = bitmap[index];
        proof {
            assert(remaining_bits < 8 ==> (1u8 << remaining_bits) >= 1) by (bit_vector);
        }
        let valid = if index < full_bytes {
            true
        } else if index == full_bytes && remaining_bits > 0 {
            byte & !((1u8 << remaining_bits) - 1) == 0
        } else {
            byte == 0
        };
        proof {
            let i = index as int;
            if index < full_bytes {
                assert forall|s: int| max_slots <= s < 8 * i + 8 implies !#[trigger] slot_occupied(*bitmap, s) by {
                    assert(s < 8 * i);
                }
            } else if index == full_bytes && remaining_bits > 0 {
                lemma_high_bits(byte, remaining_bits);
                if valid {
                    assert forall|s: int| max_slots <= s < 8 * i + 8 implies !#[trigger] slot_occupied(*bitmap, s) by {
                        if s >= 8 * i {
                            assert(s / 8 == i);
                            assert((s % 8) as u8 >= remaining_bits);
                        }
                    }
                } else {
                    let k = choose|k: u8| remaining_bits <= k < 8 && #[trigger] bit_set(byte, k);
                    let s = 8 * i + k as int;
                    assert(s / 8 == i && s % 8 == k as int);
                    assert(slot_occupied(*bitmap, s));
                }
            } else {
                lemma_zero_byte(byte);
                if valid {
                    assert forall|s: int| max_slots <= s < 8 * i + 8 implies !#[trigger] slot_occupied(*bitmap, s) by {
                        if s >= 8 * i {
                            assert(s / 8 == i);
                        }
                    }
                } else {
                    let k = choose|k: u8| k < 8 && #[trigger] bit_set(byte, k);
                    let s = 8 * i + k as int;
                    assert(s / 8 == i && s % 8 == k as int);
                    assert(slot_occupied(*bitmap, s));
                    assert(s >= max_slots);
                }
            }
        }
        if !valid {
            return false;
        }
        index = index + 1;
    }
    true
}

/// Whether no slot is occupied.
pub fn owner_slot_bitmap_is_empty(bitmap: &OwnerSlotBitmap) -> (r: bool)
    ensures
        r == forall|s: int| 0 <= s < 256 ==> !#[trigger] slot_occupied(*bitmap, s),
{
    let mut index: usize = 0;
    while index < 32
        invariant
            0 <= index <= 32,
            forall|s: int| 0 <= s < 8 * index ==> !#[trigger] slot_occupied(*bitmap, s),
        decreases 32 - index,
    {
        let byte = bitmap[index];
        proof {
            lemma_zero_byte(byte);
            let i = index as int;
            if byte != 0 {
                let k = choose|k: u8| k < 8 && #[trigger] bit_set(byte, k);
                let s = 8 * i + k as int;
                assert(s / 8 == i && s % 8 == k as int);
                assert(slot_occupied(*bitmap, s));
            } else {
                assert forall|s: int| 0 <= s < 8 * i + 8 implies !#[trigger] slot_occupied(*bitmap, s) by {
                    if s >= 8 * i {
                        assert(s / 8 == i);
                    }
                }
            }
        }
        if byte != 0 {
            return false;
        }
        index = index + 1;
    }
    true
}

proof fn lemma_lowest_free(b: u8, vb: u8, rem: u8)
    requires
        vb == (if rem >= 8 { 0xffu8 } else { ((1u8 << rem) - 1) as u8 }),
        0 < rem,
    ensures
        ((!b & vb) == 0) == (forall|k: u8| k < 8 && k < rem ==> #[trigger] bit_set(b, k)),
        (!b & vb) != 0 ==> ({
            let t = (!b & vb).trailing_zeros();
            &&& t < 8
            &&& t < rem
            &&& !bit_set(b, t as u8)
            &&& forall|k: u8| k < t ==> #[trigger] bit_set(b, k)
        }),
{
    let f = !b & vb;
    assert forall|k: u8| k < 8 && k < rem implies #[trigger] bit_set(b, k) == ((f >> k) & 1u8 == 0) by {
        assert(vb == (if rem >= 8 { 0xffu8 } else { ((1u8 << rem) - 1) as u8 }) && k < 8 && k < rem && 0 < rem ==> (((b >> k) & 1u8 == 1u8) == (((!b & vb) >> k) & 1u8 == 0))) by (bit_vector);
    }
    assert forall|k: u8| k < 8 && k >= rem implies (f >> k) & 1u8 == 0 by {
        assert(vb == (if rem >= 8 { 0xffu8 } else { ((1u8 << rem) - 1) as u8 }) && k < 8 && k >= rem ==> ((!b & vb) >> k) & 1u8 == 0) by (bit_vector);
    }
    vstd::std_specs::bits::axiom_u8_trailing_zeros(f);
    if f == 0 {
        assert forall|k: u8| k < 8 && k < rem implies #[trigger] bit_set(b, k) by {
            assert((0u8 >> k) & 1u8 == 0) by (bit_vector);
        }
    } else {
        let t = f.trailing_zeros();
        assert(t < 8);
        assert((f >> (t as u8)) & 1u8 == 1u8);
        if t >= rem as u32 {
            assert((f >> (t as u8)) & 1u8 == 0);
        }
        assert(!bit_set(b, t as u8));
        assert(!forall|k: u8| k < 8 && k < rem ==> #[trigger] bit_set(b, k));
    }
}

/// The lowest free slot at or above `from` and below `max_slots`, if any.
pub open spec fn first_free_slot_from(bitmap: OwnerSlotBitmap, max_slots: u8, from: int) -> Option<u8>
    decreases max_slots - from,
{
    if from < 0 || from >= max_slots {
        None
    } else if !slot_occupied(bitmap, from) {
        Some(from as u8)
    } else {
        first_free_slot_from(bitmap, max_slots, from + 1)
    }
}

/// The slot a new User Actor of this owner takes, or why none can be taken.
pub open spec fn spec_owner_slot_outcome(bitmap: OwnerSlotBitmap, max_slots: u8, preferred_slot: Option<u8>) -> Result<
    u8,
    Error,
> {
    if !spec_bitmap_valid(bitmap, max_slots) {
        Err(Error::InvalidOwnerSlot)
    } else {
        match preferred_slot {
            Some(slot) => if slot >= max_slots {
                Err(Error::InvalidOwnerSlot)
            } else if slot_occupied(bitmap, slot as int) {
                Err(Error::OwnerSlotOccupied)
            } else {
                Ok(slot)
            },
            None => match first_free_slot_from(bitmap, max_slots, 0) {
                Some(slot) => Ok(slot),
                None => Err(Error::OwnerSlotCapacityExceeded),
            },
        }
    }
}

/// When every slot in `from..slot` is occupied, the lowest free slot from `from` is `slot` if
/// `slot` is free, and there is none if `slot` is the slot count.
proof fn lemma_first_free_slot(bitmap: OwnerSlotBitmap, max_slots: u8, from: int, slot: int)
    requires
        0 <= from <= slot <= max_slots,
        forall|t: int| from <= t < slot ==> #[trigger] slot_occupied(bitmap, t),
    ensures
        slot < max_slots && !slot_occupied(bitmap, slot) ==> first_free_slot_from(bitmap, max_slots, from) == Some(
            slot as u8,
        ),
        slot == max_slots ==> first_free_slot_from(bitmap, max_slots, from) is None,
    decreases slot - from,
{
    if from < slot {
        assert(slot_occupied(bitmap, from));
        lemma_first_free_slot(bitmap, max_slots, from + 1, slot);
    }
}

/// Finds the preferred slot if it is in range and free, or else the lowest free slot.
#[verifier::loop_isolation(false)]
fn find_owner_slot(bitmap: &OwnerSlotBitmap, max_slots: u8, preferred_slot: Option<u8>) -> (r: Result<u8, Error>)
    ensures
        !spec_bitmap_valid(*bitmap, max_slots) ==> r == Err::<u8, Error>(Error::InvalidOwnerSlot),
        spec_bitmap_valid(*bitmap, max_slots) ==> match preferred_slot {
            Some(slot) => r == if slot >= max_slots {
                Err(Error::InvalidOwnerSlot)
            } else if slot_occupied(*bitmap, slot as int) {
                Err(Error::OwnerSlotOccupied)
            } else {
                Ok(slot)
            },
            None => match r {
                Ok(slot) => slot < max_slots && !slot_occupied(*bitmap, slot as int) && forall|t: int|
                    0 <= t < slot ==> #[trigger] slot_occupied(*bitmap, t),
                Err(e) => e == Error::OwnerSlotCapacityExceeded && forall|t: int| 0 <= t < max_slots ==> #[trigger] slot_occupied(*bitmap, t),
            },
        },
{
    if max_slots == 0 {
        return Err(Error::InvalidOwnerSlot);
    }
    if !owner_slot_bitmap_is_valid(bitmap, max_slots) {
        return Err(Error::InvalidOwnerSlot);
    }
    match preferred_slot {
        Some(slot) => {
            if slot >= max_slots {
                return Err(Error::InvalidOwnerSlot);
            }
            if owner_slot_is_set(bitmap, slot) {
                return Err(Error::OwnerSlotOccupied);
            }
            Ok(slot)
        },
        None => {
            let mut byte_index: usize = 0;
            while byte_index < 32
                invariant
                    0 <= byte_index <= 32,
                    forall|t: int| 0 <= t < 8 * byte_index && t < max_slots ==> #[trigger] slot_occupied(*bitmap, t),
                decreases 32 - byte_index,
            {
                let byte = bitmap[byte_index];
                let first_slot = byte_index * 8;
                if first_slot >= max_slots as usize {
                    break;
                }
                let remaining = max_slots as usize - first_slot;
                proof {
                    let rr = remaining as u8;
                    assert(rr < 8 ==> (1u8 << rr) >= 1) by (bit_vector);
                }
                let valid_bits: u8 = if remaining >= 8 {
                    0xff
                } else {
                    (1u8 << (remaining as u8)) - 1
                };
                let free_bits = !byte & valid_bits;
                proof {
                    let rem: u8 = if remaining >= 8 { 8 } else { remaining as u8 };
                    assert(valid_bits == (if rem >= 8 { 0xffu8 } else { ((1u8 << rem) - 1) as u8 }));
                    lemma_lowest_free(byte, valid_bits, rem);
                    let i = byte_index as int;
                    if free_bits == 0 {
                        assert forall|t: int| 0 <= t < 8 * i + 8 && t < max_slots implies #[trigger] slot_occupied(*bitmap, t) by {
                            if t >= 8 * i {
                                assert(t / 8 == i);
                                assert(bit_set(byte, (t % 8) as u8));
                            }
                        }
                    } else {
                        let tz = free_bits.trailing_zeros();
                        assert forall|t: int| 0 <= t < 8 * i + tz implies #[trigger] slot_occupied(*bitmap, t) by {
                            if t >= 8 * i {
                                assert(t / 8 == i);
                                assert(bit_set(byte, (t % 8) as u8));
                            }
                        }
                        let s = 8 * i + tz;
                        assert(s / 8 == i && s % 8 == tz);
                    }
                }
                if free_bits != 0 {
                    return Ok((first_slot + free_bits.trailing_zeros() as usize) as u8);
                }
                byte_index = byte_index + 1;
            }
            Err(Error::OwnerSlotCapacityExceeded)
        },
    }
}

/// The slot a new User Actor of this owner takes: the preferred slot if it is in range and
/// free, or else the lowest free slot below `max_slots`.
pub fn available_owner_slot(bitmap: &OwnerSlotBitmap, max_slots: u8, preferred_slot: Option<u8>) -> (r:
    Result<u8, Error>)
    ensures
        r == spec_owner_slot_outcome(*bitmap, max_slots, preferred_slot),
        spec_bitmap_valid(*bitmap, max_slots) && preferred_slot is None ==> match r {
            Ok(slot) => slot < max_slots && !slot_occupied(*bitmap, slot as int) && forall|t: int|
                0 <= t < slot ==> #[trigger] slot_occupied(*bitmap, t),
            Err(e) => e == Error::OwnerSlotCapacityExceeded && forall|t: int| 0 <= t < max_slots ==> #[trigger] slot_occupied(*bitmap, t),
        },
{
    let r = find_owner_slot(bitmap, max_slots, preferred_slot);
    proof {
        if spec_bitmap_valid(*bitmap, max_slots) && preferred_slot is None {
            match r {
                Ok(slot) => lemma_first_free_slot(*bitmap, max_slots, 0, slot as int),
                Err(_) => lemma_first_free_slot(*bitmap, max_slots, 0, max_slots as int),
            }
        }
    }
    r
}


/// The slots of `owner`'s stored bitmap; an owner without one has every slot free.
pub open spec fn owner_bitmap(bitmaps: Map<AccountId, OwnerSlotBitmap>, owner: AccountId, slot: int) -> bool {
    bitmaps.contains_key(owner) && slot_occupied(bitmaps[owner], slot)
}

/// Frees `owner_slot` of `owner` and forgets the sovereign account bound to it: the owner's
/// bitmap is dropped once no slot is left occupied.
pub fn remove_owner_slot_binding(
    bitmaps: &mut HashMap<AccountId, OwnerSlotBitmap>,
    sovereign_index: &mut HashMap<AccountId, ActorId>,
    owner: AccountId,
    owner_slot: u8,
    sovereign: AccountId,
)
    ensures
        forall|s: int|
            0 <= s < 256 ==> #[trigger] owner_bitmap(final(bitmaps)@, owner, s) == (s != owner_slot && owner_bitmap(
                old(bitmaps)@,
                owner,
                s,
            )),
        final(bitmaps)@.contains_key(owner) == exists|s: int|
            0 <= s < 256 && #[trigger] owner_bitmap(final(bitmaps)@, owner, s),
        final(bitmaps)@.remove(owner) == old(bitmaps)@.remove(owner),
        final(sovereign_index)@ == old(sovereign_index)@.remove(sovereign),
{
    let mut bitmap: OwnerSlotBitmap = match bitmaps.get(&owner) {
        Some(b) => *b,
        None => [0u8; 32],
    };
    proof {
        assert forall|s: int| 0 <= s < 256 implies #[trigger] slot_occupied(bitmap, s) == owner_bitmap(
            old(bitmaps)@,
            owner,
            s,
        ) by {
            if !old(bitmaps)@.contains_key(owner) {
                assert(bitmap@[s / 8] == 0u8);
                lemma_zero_byte(0u8);
                assert(!bit_set(0u8, (s % 8) as u8));
            }
        }
    }
    let ghost before = bitmap;
    clear_owner_slot(&mut bitmap, owner_slot);
    let empty = owner_slot_bitmap_is_empty(&bitmap);
    if empty {
        bitmaps.remove(&owner);
    } else {
        bitmaps.insert(owner, bitmap);
    }
    proof {
        assert forall|s: int| 0 <= s < 256 implies #[trigger] owner_bitmap(bitmaps@, owner, s) == (s != owner_slot
            && owner_bitmap(old(bitmaps)@, owner, s)) by {
            assert(slot_occupied(before, s) == owner_bitmap(old(bitmaps)@, owner, s));
            if s != owner_slot as int {
                assert(slot_occupied(bitmap, s) == slot_occupied(before, s));
            } else {
                assert(!slot_occupied(bitmap, s));
            }
            if empty {
                assert(!slot_occupied(bitmap, s));
            } else {
                assert(bitmaps@[owner] == bitmap);
            }
        }
        if !empty {
            let w = choose|s: int| 0 <= s < 256 && slot_occupied(bitmap, s);
            assert(owner_bitmap(bitmaps@, owner, w));
        }
    }
    sovereign_index.remove(&sovereign);
    proof {
        assert(bitmaps@.remove(owner) =~= old(bitmaps)@.remove(owner));
    }
}

} // verus!
