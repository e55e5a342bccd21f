//! Integers that the mutator can mutate, seen as bit patterns, and the
//! arithmetic of the mutations applied to them.
use vstd::prelude::*;

verus! {

/// The widths, in bits, of the integers that can be mutated.
pub open spec fn valid_bits(b: nat) -> bool {
    b == 8 || b == 16 || b == 32 || b == 64
}

/// The largest bit pattern of an integer of `b` bits.
pub open spec fn max_raw_of(b: nat) -> u64 {
    if b == 8 {
        0xff
    } else if b == 16 {
        0xffff
    } else if b == 32 {
        0xffff_ffff
    } else {
        0xffff_ffff_ffff_ffff
    }
}

/// A fixed-width integer, taken by its bit pattern (zero-extended to 64 bits).
pub trait FuzzNumber: Sized + Copy {
    /// The width in bits.
    spec fn bits() -> nat;

    /// The bit pattern of the value.
    spec fn raw(&self) -> u64;

    fn bit_count() -> (b: u32)
        ensures
            b == Self::bits(),
            valid_bits(Self::bits()),
    ;

    fn to_raw(&self) -> (r: u64)
        ensures
            r == self.raw(),
            r <= max_raw_of(Self::bits()),
    ;

    fn from_raw(r: u64) -> (v: Self)
        requires
            r <= max_raw_of(Self::bits()),
        ensures
            v.raw() == r,
    ;
}

impl FuzzNumber for u8 {
    open spec fn bits() -> nat {
        8
    }

    open spec fn raw(&self) -> u64 {
        *self as u64
    }

    fn bit_count() -> (b: u32) {
        8
    }

    fn to_raw(&self) -> (r: u64) {
        *self as u64
    }

    fn from_raw(r: u64) -> (v: Self) {
        r as u8
    }
}

impl FuzzNumber for u16 {
    open spec fn bits() -> nat {
        16
    }

    open spec fn raw(&self) -> u64 {
        *self as u64
    }

    fn bit_count() -> (b: u32) {
        16
    }

    fn to_raw(&self) -> (r: u64) {
        *self as u64
    }

    fn from_raw(r: u64) -> (v: Self) {
        r as u16
    }
}

impl FuzzNumber for u32 {
    open spec fn bits() -> nat {
        32
    }

    open spec fn raw(&self) -> u64 {
        *self as u64
    }

    fn bit_count() -> (b: u32) {
        32
    }

    fn to_raw(&self) -> (r: u64) {
        *self as u64
    }

    fn from_raw(r: u64) -> (v: Self) {
        r as u32
    }
}

impl FuzzNumber for u64 {
    open spec fn bits() -> nat {
        64
    }

    open spec fn raw(&self) -> u64 {
        *self
    }

    fn bit_count() -> (b: u32) {
        64
    }

    fn to_raw(&self) -> (r: u64) {
        *self
    }

    fn from_raw(r: u64) -> (v: Self) {
        r
    }
}

impl FuzzNumber for i8 {
    open spec fn bits() -> nat {
        8
    }

    open spec fn raw(&self) -> u64 {
        (*self as u8) as u64
    }

    fn bit_count() -> (b: u32) {
        8
    }

    fn to_raw(&self) -> (r: u64) {
        (*self as u8) as u64
    }

    fn from_raw(r: u64) -> (v: Self) {
        let v = (r as u8) as i8;
        assert(r <= 0xff ==> ((r as u8) as i8) as u8 as u64 == r) by (bit_vector);
        v
    }
}

impl FuzzNumber for i16 {
    open spec fn bits() -> nat {
        16
    }

    open spec fn raw(&self) -> u64 {
        (*self as u16) as u64
    }

    fn bit_count() -> (b: u32) {
        16
    }

    fn to_raw(&self) -> (r: u64) {
        (*self as u16) as u64
    }

    fn from_raw(r: u64) -> (v: Self) {
        let v = (r as u16) as i16;
        assert(r <= 0xffff ==> ((r as u16) as i16) as u16 as u64 == r) by (bit_vector);
        v
    }
}

impl FuzzNumber for i32 {
    open spec fn bits() -> nat {
        32
    }

    open spec fn raw(&self) -> u64 {
        (*self as u32) as u64
    }

    fn bit_count() -> (b: u32) {
        32
    }

    fn to_raw(&self) -> (r: u64) {
        (*self as u32) as u64
    }

    fn from_raw(r: u64) -> (v: Self) {
        let v = (r as u32) as i32;
        assert(r <= 0xffff_ffff ==> ((r as u32) as i32) as u32 as u64 == r) by (bit_vector);
        v
    }
}

impl FuzzNumber for i64 {
    open spec fn bits() -> nat {
        64
    }

    open spec fn raw(&self) -> u64 {
        *self as u64
    }

    fn bit_count() -> (b: u32) {
        64
    }

    fn to_raw(&self) -> (r: u64) {
        *self as u64
    }

    fn from_raw(r: u64) -> (v: Self) {
        let v = r as i64;
        assert((r as i64) as u64 == r) by (bit_vector);
        v
    }
}

/// `x` with bit `i` flipped.
pub open spec fn flip_one(x: u64, i: u64) -> u64 {
    x ^ (1u64 << i)
}

/// `x` with each bit whose index is listed in `idx` flipped.
pub open spec fn flip_all(x: u64, idx: Seq<u8>) -> u64
    decreases idx.len(),
{
    if idx.len() == 0 {
        x
    } else {
        flip_one(flip_all(x, idx.drop_last()), idx.last() as u64)
    }
}

/// A non-empty list of distinct bit indices below `b`.
pub open spec fn valid_flip_set(b: nat, idx: Seq<u8>) -> bool {
    &&& 1 <= idx.len() <= b
    &&& idx.no_duplicates()
    &&& forall|k: int| 0 <= k < idx.len() ==> #[trigger] idx[k] < b
}

/// `x + d` wrapping around above `max`.
pub open spec fn wrap_add(x: u64, d: u64, max: u64) -> int {
    if x + d <= max {
        x + d
    } else {
        x + d - max - 1
    }
}

/// `x - d` wrapping around below zero to `max`.
pub open spec fn wrap_sub(x: u64, d: u64, max: u64) -> int {
    if x >= d {
        x - d
    } else {
        x - d + max + 1
    }
}

/// The boundary values of a `b`-bit integer: zero, the largest pattern, and
/// the largest positive and the smallest negative value of the signed type.
pub open spec fn is_dangerous(b: nat, v: u64) -> bool {
    let m = max_raw_of(b);
    v == 0 || v == m || v == m / 2 || v == m / 2 + 1
}

/// `new` is `old` plus or minus `d`, wrapping within `0..=max`, for a `d`
/// from 1 to 16.
pub open spec fn small_step(old: u64, new: u64, d: u64, max: u64) -> bool {
    1 <= d <= 16 && (new == wrap_add(old, d, max) || new == wrap_sub(old, d, max))
}

/// Every outcome of mutating the bit pattern `old` of a `b`-bit integer:
/// a boundary value, one bit flipped, a set of distinct bits flipped, or a
/// small amount (1 to 16) added or subtracted with wrap-around.
pub open spec fn is_number_mutation(b: nat, old: u64, new: u64) -> bool {
    ||| is_dangerous(b, new)
    ||| exists|i: u64| i < b && new == #[trigger] flip_one(old, i)
    ||| exists|idx: Seq<u8>| valid_flip_set(b, idx) && new == #[trigger] flip_all(old, idx)
    ||| exists|d: u64| #[trigger] small_step(old, new, d, max_raw_of(b))
}

pub proof fn lemma_flip_one_in_range(x: u64, i: u64, b: nat)
    requires
        valid_bits(b),
        x <= max_raw_of(b),
        i < b,
    ensures
        flip_one(x, i) <= max_raw_of(b),
{
    if b == 8 {
        assert(x <= 0xff && i < 8 ==> x ^ (1u64 << i) <= 0xff) by (bit_vector);
    } else if b == 16 {
        assert(x <= 0xffff && i < 16 ==> x ^ (1u64 << i) <= 0xffff) by (bit_vector);
    } else if b == 32 {
        assert(x <= 0xffff_ffff && i < 32 ==> x ^ (1u64 << i) <= 0xffff_ffff) by (bit_vector);
    }
}

/// The largest pattern of a width, as a value.
pub fn max_raw(bits: u32) -> (m: u64)
    requires
        valid_bits(bits as nat),
    ensures
        m == max_raw_of(bits as nat),
{
    if bits == 8 {
        0xff
    } else if bits == 16 {
        0xffff
    } else if bits == 32 {
        0xffff_ffff
    } else {
        0xffff_ffff_ffff_ffff
    }
}

/// The boundary value number `choice` (of four) of the width whose largest
/// pattern is `max`.
pub fn dangerous_number(max: u64, choice: u64) -> (v: u64)
    requires
        choice < 4,
    ensures
        choice == 0 ==> v == 0,
        choice == 1 ==> v == max,
        choice == 2 ==> v == max / 2,
        choice == 3 ==> v == max / 2 + 1,
{
    if choice == 0 {
        0
    } else if choice == 1 {
        max
    } else if choice == 2 {
        max / 2
    } else {
        max / 2 + 1
    }
}

/// Adds (`add`) or subtracts `d` from `x`, wrapping around within `0..=max`.
pub fn wrapping_step(x: u64, d: u64, add: bool, max: u64) -> (r: u64)
    requires
        x <= max,
        d <= max,
    ensures
        add ==> r == wrap_add(x, d, max),
        !add ==> r == wrap_sub(x, d, max),
        r <= max,
{
    if add {
        if x <= max - d {
            x + d
        } else {
            d - (max - x) - 1
        }
    } else {
        if x >= d {
            x - d
        } else {
            max - (d - x) + 1
        }
    }
}

/// Bit `j` of `x`.
pub open spec fn bit(x: u64, j: u64) -> u64 {
    (x >> j) & 1
}

proof fn lemma_flip_one_bits(y: u64, l: u64, j: u64)
    requires
        l < 64,
        j < 64,
    ensures
        bit(flip_one(y, l), j) == if j == l {
            bit(y, j) ^ 1
        } else {
            bit(y, j)
        },
{
    assert(((y ^ (1u64 << l)) >> j) & 1 == if j == l {
        ((y >> j) & 1) ^ 1
    } else {
        (y >> j) & 1
    }) by (bit_vector)
        requires
            l < 64,
            j < 64,
    ;
}

proof fn lemma_flip_all_bits(x: u64, idx: Seq<u8>, j: u64)
    requires
        idx.no_duplicates(),
        forall|k: int| 0 <= k < idx.len() ==> #[trigger] idx[k] < 64,
        j < 64,
    ensures
        bit(flip_all(x, idx), j) == if idx.contains(j as u8) {
            bit(x, j) ^ 1
        } else {
            bit(x, j)
        },
    decreases idx.len(),
{
    if idx.len() > 0 {
        let rest = idx.drop_last();
        assert forall|a: int, b: int|
            0 <= a < rest.len() && 0 <= b < rest.len() && a != b implies rest[a] != rest[b] by {
            assert(rest[a] == idx[a] && rest[b] == idx[b]);
        }
        assert forall|k: int| 0 <= k < rest.len() implies #[trigger] rest[k] < 64 by {
            assert(rest[k] == idx[k]);
        }
        lemma_flip_all_bits(x, rest, j);
        lemma_flip_one_bits(flip_all(x, rest), idx.last() as u64, j);
        assert(idx =~= rest.push(idx.last()));
        if idx.last() as u64 == j {
            if rest.contains(j as u8) {
                let k = choose|k: int| 0 <= k < rest.len() && rest[k] == j as u8;
                assert(idx[k] == idx[idx.len() - 1]);
            }
            assert(idx.contains(j as u8)) by {
                assert(idx[idx.len() - 1] == j as u8);
            }
        } else {
            assert(idx.contains(j as u8) == rest.contains(j as u8)) by {
                if idx.contains(j as u8) {
                    let k = choose|k: int| 0 <= k < idx.len() && idx[k] == j as u8;
                    assert(k < idx.len() - 1);
                    assert(rest[k] == j as u8);
                }
                if rest.contains(j as u8) {
                    let k = choose|k: int| 0 <= k < rest.len() && rest[k] == j as u8;
                    assert(idx[k] == j as u8);
                }
            }
        }
    }
}

/// Flipping a non-empty set of distinct bits always changes the number.
pub proof fn lemma_flip_changes(b: nat, x: u64, idx: Seq<u8>)
    requires
        valid_bits(b),
        valid_flip_set(b, idx),
    ensures
        flip_all(x, idx) != x,
{
    let j = idx[0] as u64;
    assert forall|k: int| 0 <= k < idx.len() implies #[trigger] idx[k] < 64 by {
        assert(idx[k] < b);
    }
    lemma_flip_all_bits(x, idx, j);
    assert(idx.contains(j as u8));
    assert(bit(x, j) ^ 1 != bit(x, j)) by (bit_vector);
}

proof fn lemma_flip_all_is_xor(x: u64, idx: Seq<u8>)
    ensures
        flip_all(x, idx) == x ^ flip_all(0, idx),
    decreases idx.len(),
{
    if idx.len() == 0 {
        assert(x ^ 0 == x) by (bit_vector);
    } else {
        let rest = idx.drop_last();
        let l = idx.last() as u64;
        lemma_flip_all_is_xor(x, rest);
        let m = flip_all(0, rest);
        assert((x ^ m) ^ (1u64 << l) == x ^ (m ^ (1u64 << l))) by (bit_vector);
    }
}

/// Flipping the same set of bits twice gives the number back.
pub proof fn lemma_flip_twice(x: u64, idx: Seq<u8>)
    ensures
        flip_all(flip_all(x, idx), idx) == x,
{
    lemma_flip_all_is_xor(x, idx);
    lemma_flip_all_is_xor(flip_all(x, idx), idx);
    let m = flip_all(0, idx);
    assert((x ^ m) ^ m == x) by (bit_vector);
}

/// Flipping one bit always changes the number, and flipping it again gives
/// the number back.
pub proof fn lemma_flip_one_changes(x: u64, i: u64)
    requires
        i < 64,
    ensures
        flip_one(x, i) != x,
        flip_one(flip_one(x, i), i) == x,
{
    assert((x ^ (1u64 << i)) != x && ((x ^ (1u64 << i)) ^ (1u64 << i)) == x) by (bit_vector)
        requires
            i < 64,
    ;
}

/// A small wrapping step changes the number, and the opposite step gives it
/// back.
pub proof fn lemma_small_step_inverse(x: u64, d: u64, max: u64)
    requires
        x <= max,
        1 <= d <= 16,
        0xff <= max,
    ensures
        wrap_add(x, d, max) != x,
        wrap_sub(x, d, max) != x,
        wrap_sub(wrap_add(x, d, max) as u64, d, max) == x,
        wrap_add(wrap_sub(x, d, max) as u64, d, max) == x,
{
}

/// Every number mutation that does not pick a boundary value changes the
/// number.
pub proof fn lemma_mutation_changes(b: nat, old: u64, new: u64)
    requires
        valid_bits(b),
        old <= max_raw_of(b),
        is_number_mutation(b, old, new),
        !is_dangerous(b, new),
    ensures
        new != old,
{
    if exists|i: u64| i < b && new == #[trigger] flip_one(old, i) {
        let i = choose|i: u64| i < b && new == #[trigger] flip_one(old, i);
        lemma_flip_one_changes(old, i);
    } else if exists|idx: Seq<u8>| valid_flip_set(b, idx) && new == #[trigger] flip_all(old, idx) {
        let idx = choose|idx: Seq<u8>| valid_flip_set(b, idx) && new == #[trigger] flip_all(old, idx);
        lemma_flip_changes(b, old, idx);
    } else {
        let d = choose|d: u64| #[trigger] small_step(old, new, d, max_raw_of(b));
        lemma_small_step_inverse(old, d, max_raw_of(b));
    }
}

} // verus!
