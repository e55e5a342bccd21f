//! How the values of std's types are created and mutated.
use crate::mutator::{Mutator, MutatorView, Weighted};
use crate::number::{is_number_mutation, FuzzNumber};
use crate::resize::{
    char_vec_outcome, cut_at_an_end, grow_amount, grow_draw_in_range, grow_vec, grown_as,
    lemma_shrink_result, min_or_zero, mutate_char_vec, new_resize_type, shrink_amount,
    shrink_vec, size_cap, VecResizeType,
};
use crate::strings::{chars_of, string_of};
use crate::traits::{budget_kept, budget_only, Constraints, Mutatable, NewFuzzed, SerializedSize};
use crate::types::{AsciiChar, AsciiString, ToPrimitive, UnsafeEnum, Utf8Char, Utf8String};
use vstd::prelude::*;

verus! {

/// The outcome of `Mutator::mutate` on a number: unchanged, and the mutator
/// too, once the field budget is spent; else a number mutation of its bit
/// pattern, with one more field counted.
pub open spec fn number_mutated<T: FuzzNumber>(
    old: T,
    new: T,
    before: MutatorView,
    after: MutatorView,
) -> bool {
    if before.budget_spent() {
        new == old && after == before
    } else {
        is_number_mutation(T::bits(), old.raw(), new.raw()) && after == before.counted()
    }
}

/// A random unsigned number: drawn from `[min, max)` (weighted as the
/// constraints ask) when both bounds are given and `min < max` (and the
/// interval is not all of `u64`), else from the whole range of the type.
fn new_unsigned<T: FuzzNumber>(mutator: &mut Mutator, constraints: Option<&Constraints<T>>) -> (v: T)
    ensures
        final(mutator)@ == old(mutator)@,
        constraints matches Some(c) ==> (c.min matches Some(lo) ==> (c.max matches Some(hi) ==> (
        lo.raw() < hi.raw() && hi.raw() - lo.raw() < u64::MAX ==> lo.raw() <= v.raw() < hi.raw()))),
{
    if let Some(c) = constraints {
        if let (Some(lo), Some(hi)) = (c.min, c.max) {
            let lo_raw = lo.to_raw();
            let hi_raw = hi.to_raw();
            if lo_raw < hi_raw && hi_raw - lo_raw < u64::MAX {
                let r = mutator.gen_weighted_range(lo_raw, hi_raw, c.weighted);
                return T::from_raw(r);
            }
        }
    }
    let r = mutator.random_bits(T::bit_count());
    T::from_raw(r)
}

impl NewFuzzed for u8 {
    type RangeType = u8;

    open spec fn generable(&self) -> bool {
        true
    }

    /// Drawn from `[min, max)` when both bounds are given and `min < max`,
    /// else from the whole range of the type.
    fn new_fuzzed(mutator: &mut Mutator, constraints: Option<&Constraints<u8>>) -> (v: u8)
        ensures
            final(mutator)@ == old(mutator)@,
            constraints matches Some(c) ==> (c.min matches Some(lo) ==> (c.max matches Some(hi)
                ==> (lo < hi && hi - lo < u64::MAX ==> lo <= v < hi))),
    {
        new_unsigned(mutator, constraints)
    }
}

impl NewFuzzed for u16 {
    type RangeType = u16;

    open spec fn generable(&self) -> bool {
        true
    }

    /// Drawn from `[min, max)` when both bounds are given and `min < max`,
    /// else from the whole range of the type.
    fn new_fuzzed(mutator: &mut Mutator, constraints: Option<&Constraints<u16>>) -> (v: u16)
        ensures
            final(mutator)@ == old(mutator)@,
            constraints matches Some(c) ==> (c.min matches Some(lo) ==> (c.max matches Some(hi)
                ==> (lo < hi && hi - lo < u64::MAX ==> lo <= v < hi))),
    {
        new_unsigned(mutator, constraints)
    }
}

impl NewFuzzed for u32 {
    type RangeType = u32;

    open spec fn generable(&self) -> bool {
        true
    }

    /// Drawn from `[min, max)` when both bounds are given and `min < max`,
    /// else from the whole range of the type.
    fn new_fuzzed(mutator: &mut Mutator, constraints: Option<&Constraints<u32>>) -> (v: u32)
        ensures
            final(mutator)@ == old(mutator)@,
            constraints matches Some(c) ==> (c.min matches Some(lo) ==> (c.max matches Some(hi)
                ==> (lo < hi && hi - lo < u64::MAX ==> lo <= v < hi))),
    {
        new_unsigned(mutator, constraints)
    }
}

impl NewFuzzed for u64 {
    type RangeType = u64;

    open spec fn generable(&self) -> bool {
        true
    }

    /// Drawn from `[min, max)` when both bounds are given and `min < max`,
    /// else from the whole range of the type.
    fn new_fuzzed(mutator: &mut Mutator, constraints: Option<&Constraints<u64>>) -> (v: u64)
        ensures
            final(mutator)@ == old(mutator)@,
            constraints matches Some(c) ==> (c.min matches Some(lo) ==> (c.max matches Some(hi)
                ==> (lo < hi && hi - lo < u64::MAX ==> lo <= v < hi))),
    {
        new_unsigned(mutator, constraints)
    }
}

impl NewFuzzed for bool {
    type RangeType = u8;

    open spec fn generable(&self) -> bool {
        true
    }

    fn new_fuzzed(mutator: &mut Mutator, _constraints: Option<&Constraints<u8>>) -> (v: bool) {
        mutator.random_range(0, 2) != 0
    }
}

impl NewFuzzed for char {
    type RangeType = char;

    open spec fn generable(&self) -> bool {
        true
    }

    /// A random Unicode scalar value: a code point below `0x10F800` drawn
    /// uniformly, moved past the surrogates when it reaches them.
    fn new_fuzzed(mutator: &mut Mutator, _constraints: Option<&Constraints<char>>) -> (v: char)
        ensures
            final(mutator)@ == old(mutator)@,
    {
        let mut code = mutator.random_range(0, 0x10F800) as u32;
        if code >= 0xD800 {
            code = code + 0x800;
        }
        char::from_u32(code).unwrap()
    }
}

impl NewFuzzed for AsciiChar {
    type RangeType = u8;

    open spec fn generable(&self) -> bool {
        self.0 < 0x80
    }

    /// A random character below `0x80`.
    fn new_fuzzed(mutator: &mut Mutator, _constraints: Option<&Constraints<u8>>) -> (v: AsciiChar)
        ensures
            final(mutator)@ == old(mutator)@,
            v.0 < 0x80,
    {
        AsciiChar(mutator.random_range(0, 0x80) as u8)
    }
}

impl NewFuzzed for Utf8Char {
    type RangeType = u32;

    open spec fn generable(&self) -> bool {
        true
    }

    /// A random Unicode scalar value, drawn as a `char` is.
    fn new_fuzzed(mutator: &mut Mutator, _constraints: Option<&Constraints<u32>>) -> (v: Utf8Char)
        ensures
            final(mutator)@ == old(mutator)@,
    {
        Utf8Char(char::new_fuzzed(mutator, None))
    }
}

impl Mutatable for AsciiString {
    type RangeType = u8;

    open spec fn mutable_under(&self, constraints: Option<&Constraints<u8>>) -> bool {
        self.inner@.len() != 1 && self.inner@.len() < usize::MAX
    }

    open spec fn mutated_to(&self, new: &AsciiString, before: MutatorView, after: MutatorView) -> bool {
        char_vec_outcome(self.inner@, new.inner@) && budget_kept(before, after)
    }

    /// The characters are mutated as by `mutate_char_vec`.
    fn mutate(&mut self, mutator: &mut Mutator, _constraints: Option<&Constraints<u8>>)
        ensures
            char_vec_outcome(old(self).inner@, final(self).inner@),
    {
        mutate_char_vec(&mut self.inner, mutator);
    }
}

impl Mutatable for Utf8String {
    type RangeType = u8;

    open spec fn mutable_under(&self, constraints: Option<&Constraints<u8>>) -> bool {
        self.inner@.len() != 1 && self.inner@.len() < usize::MAX
    }

    open spec fn mutated_to(&self, new: &Utf8String, before: MutatorView, after: MutatorView) -> bool {
        char_vec_outcome(self.inner@, new.inner@) && budget_kept(before, after)
    }

    /// The characters are mutated as by `mutate_char_vec`.
    fn mutate(&mut self, mutator: &mut Mutator, _constraints: Option<&Constraints<u8>>)
        ensures
            char_vec_outcome(old(self).inner@, final(self).inner@),
    {
        mutate_char_vec(&mut self.inner, mutator);
    }
}

impl<T: ToPrimitive<Output = I>, I: FuzzNumber> Mutatable for UnsafeEnum<T, I> {
    type RangeType = I;

    open spec fn mutable_under(&self, constraints: Option<&Constraints<I>>) -> bool {
        true
    }

    /// Always an invalid value: the number (or the valid value's primitive)
    /// mutated as a number.
    open spec fn mutated_to(
        &self,
        new: &UnsafeEnum<T, I>,
        before: MutatorView,
        after: MutatorView,
    ) -> bool {
        let start = match *self {
            UnsafeEnum::Valid(v) => v.primitive(),
            UnsafeEnum::Invalid(i) => i,
        };
        *new matches UnsafeEnum::Invalid(x) && number_mutated(start, x, before, after)
    }

    /// A valid value is first replaced by its primitive; that number is then
    /// mutated, so the result is always an invalid variant.
    fn mutate(&mut self, mutator: &mut Mutator, _constraints: Option<&Constraints<I>>)
        ensures
            *final(self) is Invalid,
            *old(self) matches UnsafeEnum::Invalid(i) ==> (old(mutator)@.budget_spent()
                ==> *final(self) == *old(self)),
            *old(self) matches UnsafeEnum::Invalid(i) ==> (!old(mutator)@.budget_spent()
                ==> is_number_mutation(I::bits(), i.raw(), (*final(self))->Invalid_0.raw())),
            *old(self) matches UnsafeEnum::Valid(v) ==> (old(mutator)@.budget_spent()
                ==> *final(self) == UnsafeEnum::<T, I>::Invalid(v.primitive())),
            *old(self) matches UnsafeEnum::Valid(v) ==> (!old(mutator)@.budget_spent()
                ==> is_number_mutation(
                I::bits(),
                v.primitive().raw(),
                (*final(self))->Invalid_0.raw(),
            )),
    {
        let mut value = match self {
            UnsafeEnum::Valid(v) => v.to_primitive(),
            UnsafeEnum::Invalid(i) => *i,
        };
        mutator.mutate(&mut value);
        *self = UnsafeEnum::Invalid(value);
    }
}

impl Mutatable for String {
    type RangeType = usize;

    /// The string is neither one character long (its mutation would draw
    /// from an empty range) nor `usize::MAX` characters long.
    open spec fn mutable_under(&self, constraints: Option<&Constraints<usize>>) -> bool {
        self@.len() != 1 && self@.len() < usize::MAX
    }

    open spec fn mutated_to(&self, new: &String, before: MutatorView, after: MutatorView) -> bool {
        char_vec_outcome(self@, new@) && budget_kept(before, after)
    }

    /// The characters are mutated as by `mutate_char_vec`.
    fn mutate(&mut self, mutator: &mut Mutator, _constraints: Option<&Constraints<usize>>)
        ensures
            char_vec_outcome(old(self)@, final(self)@),
    {
        let mut chars = chars_of(self);
        mutate_char_vec(&mut chars, mutator);
        *self = string_of(&chars);
    }
}

impl SerializedSize for u8 {
    open spec fn size_of(&self) -> nat {
        1
    }

    open spec fn max_default_size() -> nat {
        1
    }

    open spec fn min_nonzero_size() -> nat {
        1
    }

    fn serialized_size(&self) -> (r: usize) {
        1
    }

    fn min_nonzero_elements_size() -> (r: usize) {
        1
    }

    fn max_default_object_size() -> (r: usize) {
        1
    }
}

impl SerializedSize for u16 {
    open spec fn size_of(&self) -> nat {
        2
    }

    open spec fn max_default_size() -> nat {
        2
    }

    open spec fn min_nonzero_size() -> nat {
        2
    }

    fn serialized_size(&self) -> (r: usize) {
        2
    }

    fn min_nonzero_elements_size() -> (r: usize) {
        2
    }

    fn max_default_object_size() -> (r: usize) {
        2
    }
}

impl SerializedSize for u32 {
    open spec fn size_of(&self) -> nat {
        4
    }

    open spec fn max_default_size() -> nat {
        4
    }

    open spec fn min_nonzero_size() -> nat {
        4
    }

    fn serialized_size(&self) -> (r: usize) {
        4
    }

    fn min_nonzero_elements_size() -> (r: usize) {
        4
    }

    fn max_default_object_size() -> (r: usize) {
        4
    }
}

impl SerializedSize for u64 {
    open spec fn size_of(&self) -> nat {
        8
    }

    open spec fn max_default_size() -> nat {
        8
    }

    open spec fn min_nonzero_size() -> nat {
        8
    }

    fn serialized_size(&self) -> (r: usize) {
        8
    }

    fn min_nonzero_elements_size() -> (r: usize) {
        8
    }

    fn max_default_object_size() -> (r: usize) {
        8
    }
}

impl SerializedSize for bool {
    open spec fn size_of(&self) -> nat {
        1
    }

    open spec fn max_default_size() -> nat {
        1
    }

    open spec fn min_nonzero_size() -> nat {
        1
    }

    fn serialized_size(&self) -> (r: usize) {
        1
    }

    fn min_nonzero_elements_size() -> (r: usize) {
        1
    }

    fn max_default_object_size() -> (r: usize) {
        1
    }
}

impl Mutatable for bool {
    type RangeType = u8;

    open spec fn mutable_under(&self, constraints: Option<&Constraints<u8>>) -> bool {
        true
    }

    /// Any value (a fair draw); no field is counted.
    open spec fn mutated_to(&self, new: &bool, before: MutatorView, after: MutatorView) -> bool {
        after == before
    }

    fn mutate(&mut self, mutator: &mut Mutator, _constraints: Option<&Constraints<u8>>)
        ensures
            final(mutator)@ == old(mutator)@,
    {
        *self = mutator.random_range(0, 2) != 0;
    }
}

impl Mutatable for u8 {
    type RangeType = u8;

    open spec fn mutable_under(&self, constraints: Option<&Constraints<u8>>) -> bool {
        true
    }

    open spec fn mutated_to(&self, new: &u8, before: MutatorView, after: MutatorView) -> bool {
        number_mutated(*self, *new, before, after)
    }

    fn mutate(&mut self, mutator: &mut Mutator, _constraints: Option<&Constraints<u8>>)
        ensures
            old(mutator)@.budget_spent() ==> *final(self) == *old(self),
            !old(mutator)@.budget_spent() ==> final(mutator)@ == old(mutator)@.counted()
                && is_number_mutation(8, old(self).raw(), final(self).raw()),
    {
        mutator.mutate(self);
    }
}

impl Mutatable for u16 {
    type RangeType = u16;

    open spec fn mutable_under(&self, constraints: Option<&Constraints<u16>>) -> bool {
        true
    }

    open spec fn mutated_to(&self, new: &u16, before: MutatorView, after: MutatorView) -> bool {
        number_mutated(*self, *new, before, after)
    }

    fn mutate(&mut self, mutator: &mut Mutator, _constraints: Option<&Constraints<u16>>)
        ensures
            old(mutator)@.budget_spent() ==> *final(self) == *old(self),
            !old(mutator)@.budget_spent() ==> final(mutator)@ == old(mutator)@.counted()
                && is_number_mutation(16, old(self).raw(), final(self).raw()),
    {
        mutator.mutate(self);
    }
}

impl Mutatable for u32 {
    type RangeType = u32;

    open spec fn mutable_under(&self, constraints: Option<&Constraints<u32>>) -> bool {
        true
    }

    open spec fn mutated_to(&self, new: &u32, before: MutatorView, after: MutatorView) -> bool {
        number_mutated(*self, *new, before, after)
    }

    fn mutate(&mut self, mutator: &mut Mutator, _constraints: Option<&Constraints<u32>>)
        ensures
            old(mutator)@.budget_spent() ==> *final(self) == *old(self),
            !old(mutator)@.budget_spent() ==> final(mutator)@ == old(mutator)@.counted()
                && is_number_mutation(32, old(self).raw(), final(self).raw()),
    {
        mutator.mutate(self);
    }
}

impl Mutatable for u64 {
    type RangeType = u64;

    open spec fn mutable_under(&self, constraints: Option<&Constraints<u64>>) -> bool {
        true
    }

    open spec fn mutated_to(&self, new: &u64, before: MutatorView, after: MutatorView) -> bool {
        number_mutated(*self, *new, before, after)
    }

    fn mutate(&mut self, mutator: &mut Mutator, _constraints: Option<&Constraints<u64>>)
        ensures
            old(mutator)@.budget_spent() ==> *final(self) == *old(self),
            !old(mutator)@.budget_spent() ==> final(mutator)@ == old(mutator)@.counted()
                && is_number_mutation(64, old(self).raw(), final(self).raw()),
    {
        mutator.mutate(self);
    }
}

impl Mutatable for i8 {
    type RangeType = i8;

    open spec fn mutable_under(&self, constraints: Option<&Constraints<i8>>) -> bool {
        true
    }

    open spec fn mutated_to(&self, new: &i8, before: MutatorView, after: MutatorView) -> bool {
        number_mutated(*self, *new, before, after)
    }

    fn mutate(&mut self, mutator: &mut Mutator, _constraints: Option<&Constraints<i8>>)
        ensures
            old(mutator)@.budget_spent() ==> *final(self) == *old(self),
            !old(mutator)@.budget_spent() ==> final(mutator)@ == old(mutator)@.counted()
                && is_number_mutation(8, old(self).raw(), final(self).raw()),
    {
        mutator.mutate(self);
    }
}

impl Mutatable for i16 {
    type RangeType = i16;

    open spec fn mutable_under(&self, constraints: Option<&Constraints<i16>>) -> bool {
        true
    }

    open spec fn mutated_to(&self, new: &i16, before: MutatorView, after: MutatorView) -> bool {
        number_mutated(*self, *new, before, after)
    }

    fn mutate(&mut self, mutator: &mut Mutator, _constraints: Option<&Constraints<i16>>)
        ensures
            old(mutator)@.budget_spent() ==> *final(self) == *old(self),
            !old(mutator)@.budget_spent() ==> final(mutator)@ == old(mutator)@.counted()
                && is_number_mutation(16, old(self).raw(), final(self).raw()),
    {
        mutator.mutate(self);
    }
}

impl Mutatable for i32 {
    type RangeType = i32;

    open spec fn mutable_under(&self, constraints: Option<&Constraints<i32>>) -> bool {
        true
    }

    open spec fn mutated_to(&self, new: &i32, before: MutatorView, after: MutatorView) -> bool {
        number_mutated(*self, *new, before, after)
    }

    fn mutate(&mut self, mutator: &mut Mutator, _constraints: Option<&Constraints<i32>>)
        ensures
            old(mutator)@.budget_spent() ==> *final(self) == *old(self),
            !old(mutator)@.budget_spent() ==> final(mutator)@ == old(mutator)@.counted()
                && is_number_mutation(32, old(self).raw(), final(self).raw()),
    {
        mutator.mutate(self);
    }
}

impl Mutatable for i64 {
    type RangeType = i64;

    open spec fn mutable_under(&self, constraints: Option<&Constraints<i64>>) -> bool {
        true
    }

    open spec fn mutated_to(&self, new: &i64, before: MutatorView, after: MutatorView) -> bool {
        number_mutated(*self, *new, before, after)
    }

    fn mutate(&mut self, mutator: &mut Mutator, _constraints: Option<&Constraints<i64>>)
        ensures
            old(mutator)@.budget_spent() ==> *final(self) == *old(self),
            !old(mutator)@.budget_spent() ==> final(mutator)@ == old(mutator)@.counted()
                && is_number_mutation(64, old(self).raw(), final(self).raw()),
    {
        mutator.mutate(self);
    }
}

/// The constraint that a collection hands down to its elements: only the
/// byte budget and whether the base object's size is accounted for.
fn element_constraints<R, S>(constraints: Option<&Constraints<R>>) -> (c: Option<Constraints<S>>)
    ensures
        constraints matches Some(given) ==> (given.max_size is Some ==> (c matches Some(e)
            && e.min is None && e.max is None && e.weighted == Weighted::Unweighted && e.max_size
            == given.max_size && e.base_object_size_accounted_for
            == given.base_object_size_accounted_for)),
        !(constraints matches Some(given) && given.max_size is Some) ==> c is None,
{
    match constraints {
        Some(given) => match given.max_size {
            Some(max_size) => {
                let mut new_constraints = Constraints::<S>::new();
                new_constraints.base_object_size_accounted_for = given.base_object_size_accounted_for;
                new_constraints.max_size(max_size);
                Some(new_constraints)
            },
            None => None,
        },
        None => None,
    }
}

fn as_ref_constraints<S>(c: &Option<Constraints<S>>) -> (r: Option<&Constraints<S>>)
    ensures
        c matches Some(x) ==> r == Some(x),
        c is None ==> r is None,
{
    match c {
        Some(x) => Some(x),
        None => None,
    }
}

/// One step of a slice mutation under a byte budget: `budget` is what is
/// left of it before the element `a` is mutated into `b` (the mutator going
/// from `before` to `after`), `next` what is left after, `counted` whether
/// the step counts towards stopping early. An element type larger by
/// default than the budget is mutated and kept if it fits (the budget left
/// unchanged), else put back as a clone of itself; a smaller one is mutated.
/// A counted step charges the element's growth to the budget (wrapping as
/// `usize`).
pub open spec fn budget_step<T: Mutatable + SerializedSize + Clone>(
    a: T,
    b: T,
    before: MutatorView,
    after: MutatorView,
    budget: usize,
    next: usize,
    counted: bool,
) -> bool {
    let charged = budget.wrapping_sub(b.size_of() as usize).wrapping_add(a.size_of() as usize);
    if T::max_default_size() > budget {
        ||| (a.mutated_to(&b, before, after) && b.size_of() <= budget && next == budget && !counted)
        ||| (cloned::<T>(a, b) && (exists|y: T|
            #[trigger] a.mutated_to(&y, before, after) && y.size_of() > budget) && next == charged
            && counted)
    } else {
        a.mutated_to(&b, before, after) && next == charged && counted
    }
}

/// The first `k` elements of `old` were mutated in turn into those of `new`,
/// the mutator going from state `vs[i]` to `vs[i + 1]` in step `i`, and the
/// others are kept. Without a byte budget each step is the element's own
/// mutation and counts; with one, each step is a `budget_step` from `bs[i]`
/// to `bs[i + 1]`. The mutation goes on after a counted step only while the
/// field budget is not reached.
pub open spec fn slice_steps<T: Mutatable + SerializedSize + Clone>(
    old: Seq<T>,
    new: Seq<T>,
    vs: Seq<MutatorView>,
    bs: Seq<usize>,
    cs: Seq<bool>,
    k: int,
    budgeted: bool,
) -> bool {
    &&& new.len() == old.len()
    &&& 0 <= k <= old.len()
    &&& vs.len() == k + 1 && bs.len() == k + 1 && cs.len() == k
    &&& forall|i: int|
        #![trigger new[i]]
        0 <= i < k ==> if budgeted {
            budget_step(old[i], new[i], vs[i], vs[i + 1], bs[i], bs[i + 1], cs[i])
        } else {
            old[i].mutated_to(&new[i], vs[i], vs[i + 1]) && cs[i]
        }
    &&& forall|i: int| #![trigger new[i]] k <= i < old.len() ==> new[i] == old[i]
    &&& forall|i: int| #![trigger cs[i]] 0 <= i < k - 1 ==> (cs[i] ==> !vs[i + 1].bail())
}

/// A run of the slice mutation under the byte budget `budget`, the mutator
/// going from `before` to `after`: the elements are mutated in turn from
/// the first, and the run stops before the last only after a counted step
/// that reached the field budget.
pub open spec fn slice_run<T: Mutatable + SerializedSize + Clone>(
    old: Seq<T>,
    new: Seq<T>,
    before: MutatorView,
    after: MutatorView,
    budget: Option<usize>,
) -> bool {
    exists|vs: Seq<MutatorView>, bs: Seq<usize>, cs: Seq<bool>, k: int|
        #[trigger] slice_steps(old, new, vs, bs, cs, k, budget is Some) && vs[0] == before && vs[k]
            == after && (budget matches Some(ms) ==> bs[0] == ms) && (k < old.len() ==> (1 <= k
            && cs[k - 1] && after.bail()))
}

/// The slice mutation leaves every element alone under this byte budget:
/// the smallest non-empty size of the element type is below it.
pub open spec fn skips_elements<T: SerializedSize>(budget: Option<usize>) -> bool {
    budget matches Some(ms) && T::min_nonzero_size() < ms
}

/// The outcomes of the slice mutation under the byte budget `budget`:
/// nothing changes when it skips the elements, else a run of it.
pub open spec fn slice_outcome<T: Mutatable + SerializedSize + Clone>(
    old: Seq<T>,
    new: Seq<T>,
    before: MutatorView,
    after: MutatorView,
    budget: Option<usize>,
) -> bool {
    if skips_elements::<T>(budget) {
        new == old && after == before
    } else {
        slice_run(old, new, before, after, budget)
    }
}

/// The byte budget that a collection hands down to its elements.
pub open spec fn byte_budget<R>(constraints: Option<&Constraints<R>>) -> Option<usize> {
    match constraints {
        Some(c) => c.max_size,
        None => None,
    }
}

/// Every element of `s` can be mutated under a budget-only constraint.
pub open spec fn elements_mutable<T: Mutatable>(s: Seq<T>) -> bool {
    forall|i: int, c: Option<&Constraints<<T as Mutatable>::RangeType>>|
        0 <= i < s.len() && budget_only(c) ==> #[trigger] s[i].mutable_under(c)
}

impl<T: Mutatable + SerializedSize + Clone> Mutatable for [T] {
    type RangeType = <T as Mutatable>::RangeType;

    open spec fn mutable_under(&self, constraints: Option<&Constraints<Self::RangeType>>) -> bool {
        elements_mutable(self@)
    }

    open spec fn mutated_to(&self, new: &Self, before: MutatorView, after: MutatorView) -> bool {
        exists|budget: Option<usize>| #[trigger] slice_outcome(self@, new@, before, after, budget)
    }

    /// Mutates the elements in turn, stopping early once the mutator's field
    /// budget says so. Under a byte budget, the budget left shrinks by what
    /// each mutation adds to the element's size, and an element whose
    /// mutation would exceed the budget is put back as it was (a clone of
    /// it). Nothing is mutated when the element type's smallest non-empty
    /// size is below the budget.
    fn mutate(&mut self, mutator: &mut Mutator, constraints: Option<&Constraints<Self::RangeType>>)
        ensures
            skips_elements::<T>(byte_budget(constraints)) ==> *final(mutator) == *old(mutator),
            slice_outcome(
                old(self)@,
                final(self)@,
                old(mutator)@,
                final(mutator)@,
                byte_budget(constraints),
            ),
    {
        let mut budget: Option<Constraints<<T as Mutatable>::RangeType>> = element_constraints(
            constraints,
        );
        let ghost budgeted = byte_budget(constraints) is Some;
        let ghost mut vs: Seq<MutatorView> = seq![mutator@];
        let ghost mut bs: Seq<usize> = seq![
            match byte_budget(constraints) {
                Some(ms) => ms,
                None => 0,
            },
        ];
        let ghost mut cs: Seq<bool> = Seq::empty();
        assert(slice_steps(old(self)@, self@, vs, bs, cs, 0, budgeted));

        // Check if we can even mutate this item
        if let Some(c) = &budget {
            if let Some(max_size) = c.max_size {
                if T::min_nonzero_elements_size() < max_size {
                    assert(slice_outcome(
                        old(self)@,
                        self@,
                        old(mutator)@,
                        mutator@,
                        byte_budget(constraints),
                    ));
                    return;
                }
            }
        }

        let n = self.len();
        let mut i: usize = 0;
        while i < n
            invariant
                i <= n == self@.len() == old(self)@.len(),
                forall|j: int| i <= j < n ==> #[trigger] self@[j] == old(self)@[j],
                elements_mutable(old(self)@),
                old(mutator)@.within_budget() ==> mutator@.within_budget(),
                mutator@.field_count == old(mutator)@.field_count,
                !(constraints matches Some(c) && c.max_size matches Some(ms) && T::min_nonzero_size()
                    < ms),
                budgeted == (byte_budget(constraints) is Some),
                budgeted == (budget is Some),
                budget matches Some(c) ==> (c.max_size == Some(bs[i as int]) && c.min is None
                    && c.max is None && c.weighted == Weighted::Unweighted),
                slice_steps(old(self)@, self@, vs, bs, cs, i as int, budgeted),
                vs[0] == old(mutator)@,
                vs[i as int] == mutator@,
                byte_budget(constraints) matches Some(ms) ==> bs[0] == ms,
                i >= 1 ==> (cs[i - 1] ==> !mutator@.bail()),
            decreases n - i,
        {
            assert(self@[i as int] == old(self)@[i as int]);
            let ghost before = mutator@;
            let ghost old_elem = self@[i as int];
            let ghost mut next_budget: usize = 0;
            let mut counted = true;
            match &mut budget {
                Some(c) => {
                    let max_size = match c.max_size {
                        Some(m) => m,
                        None => 0,
                    };
                    let mut parent = Constraints::<<T as Mutatable>::RangeType>::new();
                    parent.base_object_size_accounted_for = c.base_object_size_accounted_for;
                    parent.max_size(max_size);
                    assert(budget_only(Some(&parent)));
                    let prev_size = self[i].serialized_size();
                    if T::max_default_object_size() > max_size {
                        let prev_obj = self[i].clone();
                        T::mutate(&mut self[i], mutator, Some(&parent));
                        if self[i].serialized_size() > max_size {
                            // the mutated object is too large --
                            let ghost too_large = self@[i as int];
                            assert(old_elem.mutated_to(&too_large, before, mutator@)
                                && too_large.size_of() > max_size);
                            self[i] = prev_obj;
                        } else {
                            counted = false;
                        }
                    } else {
                        T::mutate(&mut self[i], mutator, Some(&parent));
                    }
                    if counted {
                        let new_size = self[i].serialized_size();
                        c.max_size = Some(max_size.wrapping_sub(new_size).wrapping_add(prev_size));
                        proof {
                            next_budget = max_size.wrapping_sub(new_size).wrapping_add(prev_size);
                        }
                    } else {
                        proof {
                            next_budget = max_size;
                        }
                    }
                    assert(budget_step(
                        old_elem,
                        self@[i as int],
                        before,
                        mutator@,
                        bs[i as int],
                        next_budget,
                        counted,
                    ));
                },
                None => {
                    assert(budget_only(None::<&Constraints<<T as Mutatable>::RangeType>>));
                    T::mutate(&mut self[i], mutator, None);
                },
            }
            proof {
                let vs0 = vs;
                let bs0 = bs;
                let cs0 = cs;
                vs = vs.push(mutator@);
                bs = bs.push(next_budget);
                cs = cs.push(counted);
                assert forall|j: int| #![trigger self@[j]] 0 <= j < i + 1 implies if budgeted {
                    budget_step(old(self)@[j], self@[j], vs[j], vs[j + 1], bs[j], bs[j + 1], cs[j])
                } else {
                    old(self)@[j].mutated_to(&self@[j], vs[j], vs[j + 1]) && cs[j]
                } by {
                    if j < i {
                        assert(vs[j] == vs0[j] && vs[j + 1] == vs0[j + 1] && bs[j] == bs0[j]
                            && bs[j + 1] == bs0[j + 1] && cs[j] == cs0[j]);
                    }
                }
                assert forall|j: int| #![trigger cs[j]] 0 <= j < i && cs[j] implies !vs[j
                    + 1].bail() by {
                    assert(cs[j] == cs0[j] && vs[j + 1] == vs0[j + 1]);
                }
                assert(slice_steps(old(self)@, self@, vs, bs, cs, i + 1, budgeted));
            }
            if counted && mutator.should_early_bail_mutation() {
                assert(slice_run(old(self)@, self@, old(mutator)@, mutator@, byte_budget(constraints)));
                assert(slice_outcome(
                    old(self)@,
                    self@,
                    old(mutator)@,
                    mutator@,
                    byte_budget(constraints),
                ));
                return;
            }
            i = i + 1;
        }
        assert(slice_run(old(self)@, self@, old(mutator)@, mutator@, byte_budget(constraints)));
        assert(slice_outcome(old(self)@, self@, old(mutator)@, mutator@, byte_budget(constraints)));
    }
}

impl<T: Mutatable + SerializedSize + Clone, const SIZE: usize> Mutatable for [T; SIZE] {
    type RangeType = <T as Mutatable>::RangeType;

    open spec fn mutable_under(&self, constraints: Option<&Constraints<Self::RangeType>>) -> bool {
        elements_mutable(self@)
    }

    open spec fn mutated_to(&self, new: &Self, before: MutatorView, after: MutatorView) -> bool {
        exists|budget: Option<usize>| #[trigger] slice_outcome(self@, new@, before, after, budget)
    }

    /// Mutated as a slice.
    fn mutate(&mut self, mutator: &mut Mutator, constraints: Option<&Constraints<Self::RangeType>>)
        ensures
            skips_elements::<T>(byte_budget(constraints)) ==> *final(mutator) == *old(mutator),
            slice_outcome(
                old(self)@,
                final(self)@,
                old(mutator)@,
                final(mutator)@,
                byte_budget(constraints),
            ),
    {
        // Treat this as a slice
        let elements: &mut [T] = self;
        elements.mutate(mutator, constraints);
    }
}

impl<T: Mutatable + NewFuzzed<RangeType = <T as Mutatable>::RangeType>> Mutatable for Option<T> {
    type RangeType = <T as Mutatable>::RangeType;

    open spec fn mutable_under(&self, constraints: Option<&Constraints<Self::RangeType>>) -> bool {
        match self {
            Some(inner) => inner.mutable_under(constraints),
            None => true,
        }
    }

    /// A present value becomes absent or is mutated; an absent one stays
    /// absent or becomes a value that `new_fuzzed` can create. Only the
    /// mutation of a present value counts fields.
    open spec fn mutated_to(&self, new: &Option<T>, before: MutatorView, after: MutatorView) -> bool {
        match *self {
            Some(x) => match *new {
                Some(y) => x.mutated_to(&y, before, after),
                None => after == before,
            },
            None => match *new {
                Some(y) => y.generable() && budget_kept(before, after),
                None => after == before,
            },
        }
    }

    /// A present value becomes absent with chance 5 in 100, else is mutated;
    /// an absent one becomes a new value with chance 10 in 100.
    fn mutate(&mut self, mutator: &mut Mutator, constraints: Option<&Constraints<Self::RangeType>>) {
        let mut current: Option<T> = None;
        std::mem::swap(self, &mut current);
        match current {
            Some(mut inner) => {
                // small chance to make this None
                if !mutator.gen_chance(5, 100) {
                    inner.mutate(mutator, constraints);
                    *self = Some(inner);
                }
            },
            None => {
                if mutator.gen_chance(10, 100) {
                    let new_item = T::new_fuzzed(mutator, constraints);
                    *self = Some(new_item);
                }
            },
        }
    }
}

impl<T: Mutatable> Mutatable for Box<T> {
    type RangeType = <T as Mutatable>::RangeType;

    open spec fn mutable_under(&self, constraints: Option<&Constraints<Self::RangeType>>) -> bool {
        (**self).mutable_under(constraints)
    }

    /// The boxed value is mutated.
    open spec fn mutated_to(&self, new: &Box<T>, before: MutatorView, after: MutatorView) -> bool {
        (**self).mutated_to(&**new, before, after)
    }

    fn mutate(&mut self, mutator: &mut Mutator, constraints: Option<&Constraints<Self::RangeType>>) {
        T::mutate(&mut **self, mutator, constraints);
    }
}

/// The element limit of a collection's constraints.
pub open spec fn max_of(constraints: Option<&Constraints<usize>>) -> Option<usize> {
    match constraints {
        Some(c) => c.max,
        None => None,
    }
}

/// The least number of elements of a collection's constraints.
pub open spec fn min_of(constraints: Option<&Constraints<usize>>) -> Option<usize> {
    match constraints {
        Some(c) => c.min,
        None => None,
    }
}

/// A vector of `len` elements of `T` may grow under `constraints`: it is
/// below the element limit, and below the number of elements of the largest
/// default size that the byte budget holds.
pub open spec fn room_to_grow<T: SerializedSize>(len: int, constraints: Option<&Constraints<usize>>) -> bool {
    &&& max_of(constraints) matches Some(me) ==> len < me
    &&& byte_budget(constraints) matches Some(ms) ==> len < ms as int / T::max_default_size() as int
}

/// `new` is `old` grown as `grow_vec` grows it under the element limit and
/// byte budget of `constraints`.
pub open spec fn vec_grown<T: NewFuzzed + SerializedSize>(
    old: Seq<T>,
    new: Seq<T>,
    constraints: Option<&Constraints<usize>>,
) -> bool {
    exists|kind: int, drawn: int, added: Seq<T>|
        grow_draw_in_range(old.len() as int, kind, drawn, max_of(constraints)) && #[trigger] grown_as(
            old,
            new,
            added,
            grow_amount(
                old.len() as int,
                kind,
                drawn,
                size_cap::<T>(byte_budget(constraints)),
                max_of(constraints),
            ),
            byte_budget(constraints),
        )
}

/// `new` is the non-empty `old` shrunk as `shrink_vec` shrinks it, keeping
/// at least `min` elements.
pub open spec fn shrunk_keeping<T>(old: Seq<T>, new: Seq<T>, min: int) -> bool {
    old.len() > 0 && exists|kind: int, fixed: int, fallback: int|
        0 <= kind < 5 && 1 <= fixed < 9 && 0 <= fallback <= old.len() && #[trigger] cut_at_an_end(
            old,
            new,
            shrink_amount(old.len() as int, min, kind, fixed, fallback),
        )
}

/// `new` is the non-empty `old` shrunk as `shrink_vec` shrinks it, keeping
/// the least number of elements of `constraints`.
pub open spec fn vec_shrunk<T>(old: Seq<T>, new: Seq<T>, constraints: Option<&Constraints<usize>>) -> bool {
    shrunk_keeping(old, new, min_or_zero(min_of(constraints)))
}

/// Every outcome of mutating a vector of elements of non-zero size under
/// `constraints`, the mutator going from `before` to `after`: its elements
/// mutated in place as a slice; grown (when empty, or when there is room to
/// grow); or shrunk.
pub open spec fn vec_outcome<T: Mutatable + NewFuzzed + SerializedSize + Clone>(
    old: Seq<T>,
    new: Seq<T>,
    before: MutatorView,
    after: MutatorView,
    constraints: Option<&Constraints<usize>>,
) -> bool {
    ||| slice_outcome(old, new, before, after, byte_budget(constraints))
    ||| (old.len() == 0 || room_to_grow::<T>(old.len() as int, constraints)) && vec_grown(
        old,
        new,
        constraints,
    ) && budget_kept(before, after)
    ||| vec_shrunk(old, new, constraints) && after == before
}

/// A non-empty vector that already holds as many elements of the largest
/// default size as its byte budget allows never gets longer: its mutation
/// keeps its length or shrinks it.
pub proof fn lemma_full_vec_never_grows<T: Mutatable + NewFuzzed + SerializedSize + Clone>(
    old: Seq<T>,
    new: Seq<T>,
    before: MutatorView,
    after: MutatorView,
    constraints: Option<&Constraints<usize>>,
    max_size: usize,
)
    requires
        T::max_default_size() > 0,
        byte_budget(constraints) == Some(max_size),
        old.len() > 0,
        old.len() >= max_size as int / T::max_default_size() as int,
        min_or_zero(min_of(constraints)) <= old.len(),
        vec_outcome(old, new, before, after, constraints),
    ensures
        new.len() <= old.len(),
{
    if slice_outcome(old, new, before, after, byte_budget(constraints)) {
        if !skips_elements::<T>(byte_budget(constraints)) {
            let (vs, bs, cs, k) = choose|vs: Seq<MutatorView>, bs: Seq<usize>, cs: Seq<bool>, k: int|
                #[trigger] slice_steps(old, new, vs, bs, cs, k, byte_budget(constraints) is Some)
                    && vs[0] == before && vs[k] == after && (byte_budget(constraints) matches Some(
                    ms,
                ) ==> bs[0] == ms) && (k < old.len() ==> (1 <= k && cs[k - 1] && after.bail()));
        }
    } else if vec_shrunk(old, new, constraints) {
        let (kind, fixed, fallback) = choose|kind: int, fixed: int, fallback: int|
            0 <= kind < 5 && 1 <= fixed < 9 && 0 <= fallback <= old.len() && #[trigger] cut_at_an_end(
                old,
                new,
                shrink_amount(old.len() as int, min_or_zero(min_of(constraints)), kind, fixed, fallback),
            );
        lemma_shrink_result(old, new, min_or_zero(min_of(constraints)), kind, fixed, fallback);
    } else {
        assert(!room_to_grow::<T>(old.len() as int, constraints));
    }
}

/// When the byte budget is no larger than the smallest non-empty size of
/// the elements (or there is none) and the mutator sets no field limit, the
/// slice mutation goes through every element: each one is the outcome of a
/// step of the mutation, none is skipped.
pub proof fn lemma_slice_covers_all<T: Mutatable + SerializedSize + Clone>(
    old: Seq<T>,
    new: Seq<T>,
    before: MutatorView,
    after: MutatorView,
    budget: Option<usize>,
)
    requires
        budget matches Some(ms) ==> ms <= T::min_nonzero_size(),
        after.field_count is None,
        slice_outcome(old, new, before, after, budget),
    ensures
        exists|vs: Seq<MutatorView>, bs: Seq<usize>, cs: Seq<bool>|
            #[trigger] slice_steps(old, new, vs, bs, cs, old.len() as int, budget is Some) && vs[0]
                == before && vs[old.len() as int] == after,
{
    let (vs, bs, cs, k) = choose|vs: Seq<MutatorView>, bs: Seq<usize>, cs: Seq<bool>, k: int|
        #[trigger] slice_steps(old, new, vs, bs, cs, k, budget is Some) && vs[0] == before && vs[k]
            == after && (budget matches Some(ms) ==> bs[0] == ms) && (k < old.len() ==> (1 <= k
            && cs[k - 1] && after.bail()));
    assert(k == old.len());
}

impl<T: Mutatable + NewFuzzed + SerializedSize + Clone> Mutatable for Vec<T> {
    type RangeType = usize;

    /// Elements of size zero are never touched. Otherwise the vector is
    /// shorter than `usize::MAX`; an empty one with an element limit allows
    /// at least two elements; a non-empty one holds at least the minimum;
    /// and each element can be mutated under a byte budget.
    open spec fn mutable_under(&self, constraints: Option<&Constraints<usize>>) -> bool {
        ||| T::max_default_size() == 0
        ||| {
            &&& self@.len() < usize::MAX
            &&& constraints matches Some(c) ==> (self@.len() == 0 ==> (c.max matches Some(me) ==> me
                > 1))
            &&& constraints matches Some(c) ==> (self@.len() > 0 ==> (c.min matches Some(mn) ==> mn
                <= self@.len()))
            &&& elements_mutable(self@)
        }
    }

    /// Left alone when the elements have size zero, else mutated as some
    /// constraints allow (see `vec_outcome`).
    open spec fn mutated_to(&self, new: &Vec<T>, before: MutatorView, after: MutatorView) -> bool {
        if T::max_default_size() == 0 {
            new@ == self@ && after == before
        } else {
            exists|c: Option<&Constraints<usize>>| #[trigger] vec_outcome(self@, new@, before, after, c)
        }
    }

    /// With chance 1 in 100 (33 in 100 when empty) the vector is resized:
    /// grown within the element limit and byte budget, or shrunk down to no
    /// fewer than the minimum; else its elements are mutated in place.
    fn mutate(&mut self, mutator: &mut Mutator, constraints: Option<&Constraints<usize>>)
        ensures
            constraints matches Some(c) ==> (c.max matches Some(me) ==> (old(self)@.len() <= me
                ==> final(self)@.len() <= me)),
            constraints matches Some(c) ==> (c.min matches Some(mn) ==> (mn <= old(self)@.len()
                ==> mn <= final(self)@.len())),
            T::max_default_size() == 0 ==> *final(self) == *old(self) && *final(mutator)
                == *old(mutator),
            T::max_default_size() > 0 ==> vec_outcome(
                old(self)@,
                final(self)@,
                old(mutator)@,
                final(mutator)@,
                constraints,
            ),
            T::max_default_size() > 0 && old(self)@.len() > 0 && (byte_budget(constraints) matches Some(
                ms,
            ) && old(self)@.len() >= ms as int / T::max_default_size() as int) ==> final(self)@.len()
                <= old(self)@.len(),
    {
        if T::max_default_object_size() == 0 {
            assert(self@ == old(self)@ && mutator@ == old(mutator)@);
            return;
        }
        let len = self.len();
        let (max_elems, min_elems, max_size) = match constraints {
            Some(c) => (c.max, c.min, c.max_size),
            None => (None, None, None),
        };
        assert(max_elems == max_of(constraints) && min_elems == min_of(constraints) && max_size
            == byte_budget(constraints));

        // we can grow the vector if we have no size constraint or the max size quota hasn't
        // been fulfilled
        let mut can_grow = true;
        if let Some(max_elems) = max_elems {
            if len >= max_elems {
                can_grow = false;
            }
        }
        if let Some(max_size) = max_size {
            if len >= max_size / T::max_default_object_size() {
                can_grow = false;
            }
        }

        let element = element_constraints::<usize, <T as Mutatable>::RangeType>(constraints);
        assert(element matches Some(e) ==> e.max_size == byte_budget(constraints));
        assert(element is None ==> byte_budget(constraints) is None);
        if len == 0 {
            if mutator.gen_chance(33, 100) {
                grow_vec(self, mutator, max_elems, max_size);
            } else {
                self.as_mut_slice().mutate(mutator, as_ref_constraints(&element));
            }
        } else if mutator.gen_chance(1, 100) {
            let resize_type = new_resize_type(mutator);
            if resize_type == VecResizeType::Grow && can_grow {
                grow_vec(self, mutator, max_elems, max_size);
            } else {
                shrink_vec(self, mutator, min_elems);
            }
        } else {
            self.as_mut_slice().mutate(mutator, as_ref_constraints(&element));
        }
        assert(vec_outcome(old(self)@, self@, old(mutator)@, mutator@, constraints));
    }
}

/// The first `k` elements of `old` were mutated in turn, each by its own
/// mutation, into those of `new`, the mutator going from `vs[i]` to
/// `vs[i + 1]` in step `i`; the others are kept; and the mutation went on
/// after an element only while the field budget was not reached.
pub open spec fn mutated_in_turn<T: Mutatable>(
    old: Seq<T>,
    new: Seq<T>,
    vs: Seq<MutatorView>,
    k: int,
) -> bool {
    &&& new.len() == old.len()
    &&& 0 <= k <= old.len()
    &&& vs.len() == k + 1
    &&& forall|i: int| #![trigger new[i]] 0 <= i < k ==> old[i].mutated_to(&new[i], vs[i], vs[i + 1])
    &&& forall|i: int| #![trigger new[i]] k <= i < old.len() ==> new[i] == old[i]
    &&& forall|i: int| #![trigger vs[i]] 1 <= i < k ==> !vs[i].bail()
}

/// A run of `mutate_elements`, the mutator going from `before` to `after`:
/// the elements are mutated in turn from the first, and the run stops
/// before the last only once the field budget is reached.
pub open spec fn elements_run<T: Mutatable>(
    old: Seq<T>,
    new: Seq<T>,
    before: MutatorView,
    after: MutatorView,
) -> bool {
    exists|vs: Seq<MutatorView>, k: int|
        #[trigger] mutated_in_turn(old, new, vs, k) && vs[0] == before && vs[k] == after && (k
            < old.len() ==> (1 <= k && after.bail()))
}

/// `mutate_elements` leaves every element alone under this byte budget:
/// the smallest non-empty size of the element type is below it, or its
/// largest default size above it.
pub open spec fn elements_skipped<T: SerializedSize>(budget: Option<usize>) -> bool {
    budget matches Some(ms) && (T::min_nonzero_size() < ms || T::max_default_size() > ms)
}

/// Every outcome of `mutate_elements` under the byte budget `budget`.
pub open spec fn elements_outcome<T: Mutatable + SerializedSize>(
    old: Seq<T>,
    new: Seq<T>,
    before: MutatorView,
    after: MutatorView,
    budget: Option<usize>,
) -> bool {
    if elements_skipped::<T>(budget) {
        new == old && after == before
    } else {
        elements_run(old, new, before, after)
    }
}

/// Mutates the elements of a slice whose elements cannot be cloned: each in
/// turn under the byte budget alone, stopping once the mutator's field
/// budget is reached. Nothing is mutated when the element type's smallest
/// non-empty size is below the budget or its largest default size above it.
pub fn mutate_elements<T: Mutatable + SerializedSize>(
    elements: &mut [T],
    mutator: &mut Mutator,
    constraints: Option<&Constraints<<T as Mutatable>::RangeType>>,
)
    requires
        elements_mutable(old(elements)@),
    ensures
        old(mutator)@.within_budget() ==> final(mutator)@.within_budget(),
        final(mutator)@.field_count == old(mutator)@.field_count,
        elements_skipped::<T>(byte_budget(constraints)) ==> *final(mutator) == *old(mutator),
        elements_outcome(
            old(elements)@,
            final(elements)@,
            old(mutator)@,
            final(mutator)@,
            byte_budget(constraints),
        ),
{
    let budget: Option<Constraints<<T as Mutatable>::RangeType>> = element_constraints(constraints);
    assert(budget matches Some(e) ==> e.max_size == byte_budget(constraints));
    assert(budget is None ==> byte_budget(constraints) is None);

    // Check if we can even mutate this item
    if let Some(c) = &budget {
        if let Some(max_size) = c.max_size {
            if T::min_nonzero_elements_size() < max_size || T::max_default_object_size() > max_size {
                return;
            }
        }
    }
    let element = as_ref_constraints(&budget);
    assert(budget_only(element));
    let ghost mut vs: Seq<MutatorView> = seq![mutator@];
    let n = elements.len();
    let mut i: usize = 0;
    while i < n
        invariant
            i <= n == elements@.len() == old(elements)@.len(),
            elements_mutable(old(elements)@),
            budget_only(element),
            old(mutator)@.within_budget() ==> mutator@.within_budget(),
            mutator@.field_count == old(mutator)@.field_count,
            mutated_in_turn(old(elements)@, elements@, vs, i as int),
            vs[0] == old(mutator)@,
            vs[i as int] == mutator@,
            !mutator@.bail() || i == 0,
            !elements_skipped::<T>(byte_budget(constraints)),
        decreases n - i,
    {
        assert(elements@[i as int] == old(elements)@[i as int]);
        T::mutate(&mut elements[i], mutator, element);
        proof {
            let vs0 = vs;
            vs = vs.push(mutator@);
            assert forall|j: int| #![trigger elements@[j]] 0 <= j < i + 1 implies old(
                elements,
            )@[j].mutated_to(&elements@[j], vs[j], vs[j + 1]) by {
                if j < i {
                    assert(vs[j] == vs0[j] && vs[j + 1] == vs0[j + 1]);
                }
            }
            assert forall|j: int| #![trigger vs[j]] 1 <= j < i + 1 implies !vs[j].bail() by {
                assert(vs[j] == vs0[j]);
            }
            assert(mutated_in_turn(old(elements)@, elements@, vs, i + 1));
        }
        if mutator.should_early_bail_mutation() {
            assert(elements_run(old(elements)@, elements@, old(mutator)@, mutator@));
            return;
        }
        i = i + 1;
    }
    assert(elements_run(old(elements)@, elements@, old(mutator)@, mutator@));
}

/// Mutates a vector whose elements can be mutated but not created: with
/// chance 1 in 100 it is shrunk, keeping at least one element; else its
/// elements are mutated in place as by `mutate_elements`.
pub fn mutate_vec_shrink_only<T: Mutatable + SerializedSize>(
    vec: &mut Vec<T>,
    mutator: &mut Mutator,
    constraints: Option<&Constraints<usize>>,
)
    requires
        old(vec).len() < usize::MAX,
        elements_mutable(old(vec)@),
    ensures
        old(mutator)@.within_budget() ==> final(mutator)@.within_budget(),
        final(mutator)@.field_count == old(mutator)@.field_count,
        ({
            ||| elements_outcome(
                old(vec)@,
                final(vec)@,
                old(mutator)@,
                final(mutator)@,
                byte_budget(constraints),
            )
            ||| shrunk_keeping(old(vec)@, final(vec)@, 1) && final(mutator)@ == old(mutator)@
            ||| old(vec).len() == 0 && final(vec)@ == old(vec)@ && final(mutator)@ == old(mutator)@
        }),
        final(vec).len() <= old(vec).len(),
        old(vec).len() > 0 ==> final(vec).len() > 0,
{
    // 1% chance to resize this vec
    if mutator.gen_chance(1, 100) {
        shrink_vec(vec, mutator, Some(1));
    } else {
        let element = element_constraints::<usize, <T as Mutatable>::RangeType>(constraints);
        assert(element matches Some(e) ==> e.max_size == byte_budget(constraints));
        assert(element is None ==> byte_budget(constraints) is None);
        mutate_elements(vec.as_mut_slice(), mutator, as_ref_constraints(&element));
    }
}

/// A non-empty vector may grow in `mutate_vec_no_clone` only under
/// constraints, and then unless their byte budget is zero.
pub open spec fn growth_allowed(constraints: Option<&Constraints<usize>>) -> bool {
    constraints matches Some(c) && (c.max_size matches Some(s) ==> s > 0)
}

/// Mutates a vector whose elements can be created but not cloned, as a
/// vector of clonable elements is mutated, except that a non-empty vector
/// grows only as `growth_allowed` says and its elements are mutated as by
/// `mutate_elements`. Elements of size zero are never touched.
pub fn mutate_vec_no_clone<T: Mutatable + NewFuzzed + SerializedSize>(
    vec: &mut Vec<T>,
    mutator: &mut Mutator,
    constraints: Option<&Constraints<usize>>,
)
    requires
        T::max_default_size() > 0 ==> old(vec).len() < usize::MAX,
        T::max_default_size() > 0 && (old(vec).len() == 0 || growth_allowed(constraints)) ==> (
        max_of(constraints) matches Some(me) ==> 1 < me && old(vec).len() <= me),
        T::max_default_size() > 0 && old(vec).len() > 0 ==> min_or_zero(min_of(constraints))
            <= old(vec).len(),
        T::max_default_size() > 0 ==> elements_mutable(old(vec)@),
    ensures
        old(mutator)@.within_budget() ==> final(mutator)@.within_budget(),
        final(mutator)@.field_count == old(mutator)@.field_count,
        T::max_default_size() == 0 ==> *final(vec) == *old(vec) && *final(mutator) == *old(
            mutator,
        ),
        max_of(constraints) matches Some(me) ==> (old(vec).len() <= me ==> final(vec).len() <= me),
        min_of(constraints) matches Some(mn) ==> (mn <= old(vec).len() ==> mn <= final(vec).len()),
        T::max_default_size() > 0 ==> ({
            ||| elements_outcome(
                old(vec)@,
                final(vec)@,
                old(mutator)@,
                final(mutator)@,
                byte_budget(constraints),
            )
            ||| (old(vec).len() == 0 || growth_allowed(constraints)) && vec_grown(
                old(vec)@,
                final(vec)@,
                constraints,
            ) && budget_kept(old(mutator)@, final(mutator)@)
            ||| vec_shrunk(old(vec)@, final(vec)@, constraints) && final(mutator)@ == old(
                mutator,
            )@
        }),
{
    if T::max_default_object_size() == 0 {
        return;
    }
    let len = vec.len();
    let (max_elems, min_elems, max_size) = match constraints {
        Some(c) => (c.max, c.min, c.max_size),
        None => (None, None, None),
    };
    assert(max_elems == max_of(constraints) && min_elems == min_of(constraints) && max_size
        == byte_budget(constraints));

    // we can grow the vector if we have no size constraint or the max size quota hasn't
    // been fulfilled
    let can_grow = match constraints {
        Some(c) => match c.max_size {
            Some(s) => s > 0,
            None => true,
        },
        None => false,
    };
    assert(can_grow == growth_allowed(constraints));

    let element = element_constraints::<usize, <T as Mutatable>::RangeType>(constraints);
    assert(element matches Some(e) ==> e.max_size == byte_budget(constraints));
    assert(element is None ==> byte_budget(constraints) is None);
    if len == 0 {
        if mutator.gen_chance(33, 100) {
            grow_vec(vec, mutator, max_elems, max_size);
        } else {
            mutate_elements(vec.as_mut_slice(), mutator, as_ref_constraints(&element));
        }
    } else if mutator.gen_chance(1, 100) {
        let resize_type = new_resize_type(mutator);
        if resize_type == VecResizeType::Grow && can_grow {
            grow_vec(vec, mutator, max_elems, max_size);
        } else {
            shrink_vec(vec, mutator, min_elems);
        }
    } else {
        mutate_elements(vec.as_mut_slice(), mutator, as_ref_constraints(&element));
    }
}

/// When the byte budget lies between the largest default size and the
/// smallest non-empty size of the elements (or there is none) and the
/// mutator sets no field limit, `mutate_elements` mutates every element in
/// turn.
pub proof fn lemma_elements_cover_all<T: Mutatable + SerializedSize>(
    old: Seq<T>,
    new: Seq<T>,
    before: MutatorView,
    after: MutatorView,
    budget: Option<usize>,
)
    requires
        budget matches Some(ms) ==> (T::max_default_size() <= ms && ms <= T::min_nonzero_size()),
        after.field_count is None,
        elements_outcome(old, new, before, after, budget),
    ensures
        exists|vs: Seq<MutatorView>|
            #[trigger] mutated_in_turn(old, new, vs, old.len() as int) && vs[0] == before
                && vs[old.len() as int] == after,
{
    let (vs, k) = choose|vs: Seq<MutatorView>, k: int|
        #[trigger] mutated_in_turn(old, new, vs, k) && vs[0] == before && vs[k] == after && (k
            < old.len() ==> (1 <= k && after.bail()));
    assert(k == old.len());
}

} // verus!
