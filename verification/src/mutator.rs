//! The mutator: random choices, the field budget of a fuzzing iteration, and
//! the mutations of integers.
use crate::corpus::CorpusFuzzingState;
use crate::number::{
    dangerous_number, flip_all, flip_one, is_dangerous, is_number_mutation, lemma_flip_one_in_range,
    max_raw, max_raw_of, small_step, valid_bits, valid_flip_set, wrapping_step, FuzzNumber,
};
use crate::rng::{
    rng_partial_shuffle, rng_random_bool, rng_random_range, rng_random_ratio, rng_random_u64,
    rng_sample_indices, rng_weighted_index,
};
use crate::traits::NewFuzzed;
use rand::rngs::StdRng;
use vstd::prelude::*;

verus! {

/// Which end of an interval a generated number leans towards.
#[derive(Debug, Clone, Copy, PartialEq, Eq, Structural)]
pub enum Weighted {
    Unweighted,
    Min,
    Max,
}

/// Lower end of sub-range `i` (of three) of `[min, max)`: the interval is cut
/// into thirds of `(max - min + 1) / 3`, the last one reaching up to `max`.
pub open spec fn slice_lo(min: u64, max: u64, i: int) -> int {
    min + i * ((max - min + 1) / 3)
}

/// Upper end (exclusive) of sub-range `i` of `[min, max)`.
pub open spec fn slice_hi(min: u64, max: u64, i: int) -> int {
    if i == 2 {
        max as int
    } else {
        slice_lo(min, max, i + 1)
    }
}

/// The three thirds of `[min, max)` follow each other without gap or
/// overlap, from `min` up to `max`, and none of them is empty.
pub proof fn lemma_slices_tile(min: u64, max: u64)
    requires
        min < max,
        max - min + 1 >= 6,
    ensures
        slice_lo(min, max, 0) == min,
        slice_hi(min, max, 0) == slice_lo(min, max, 1),
        slice_hi(min, max, 1) == slice_lo(min, max, 2),
        slice_hi(min, max, 2) == max,
        forall|i: int| 0 <= i < 3 ==> slice_lo(min, max, i) < #[trigger] slice_hi(min, max, i),
{
    let t = (max - min + 1) / 3;
    assert(3 * t <= max - min + 1 && t >= 2);
    assert(slice_lo(min, max, 1) == min + t);
    assert(slice_lo(min, max, 2) == min + 2 * t);
}

/// The three sub-ranges of `[min, max)` as pairs of bounds.
pub fn weighted_slices(min: u64, max: u64) -> (s: [(u64, u64); 3])
    requires
        min < max,
        max - min + 1 >= 6,
        max - min < u64::MAX,
    ensures
        forall|i: int|
            #![trigger s[i]]
            0 <= i < 3 ==> s[i].0 == slice_lo(min, max, i) && s[i].1 == slice_hi(min, max, i)
                && s[i].0 < s[i].1,
{
    let range = (max - min) + 1;
    let one_third_of_range = range / 3;
    let s = [
        (min, min + one_third_of_range),
        (min + one_third_of_range, min + 2 * one_third_of_range),
        (min + 2 * one_third_of_range, max),
    ];
    assert(3 * one_third_of_range <= range && one_third_of_range >= 2);
    assert(slice_lo(min, max, 0) == min);
    assert(slice_lo(min, max, 1) == min + one_third_of_range);
    assert(slice_lo(min, max, 2) == min + 2 * one_third_of_range);
    assert forall|i: int| 0 <= i < 3 implies s[i].0 == slice_lo(min, max, i) && s[i].1
        == slice_hi(min, max, i) && s[i].0 < s[i].1 by {
        if i == 0 {
        } else if i == 1 {
        } else {
        }
    }
    s
}

/// The weights of the three sub-ranges: 7, 2, 1 towards the minimum, and
/// 1, 2, 7 otherwise (towards the maximum).
pub fn slice_weights(weighted: Weighted) -> (w: [u8; 3])
    ensures
        weighted == Weighted::Min ==> w[0] == 7 && w[1] == 2 && w[2] == 1,
        weighted != Weighted::Min ==> w[0] == 1 && w[1] == 2 && w[2] == 7,
{
    if weighted == Weighted::Min {
        [7, 2, 1]
    } else {
        [1, 2, 7]
    }
}

/// The strategies by which a number is mutated.
#[derive(Debug, Copy, Clone)]
enum MutatorOperation {
    BitFlip,
    Flip,
    Arithmetic,
}

#[derive(Clone, Copy, Debug)]
struct MutatorFlags {
    field_count: Option<usize>,
    all_chances_succeed: bool,
}

/// What the mutator holds besides its random generator.
pub struct MutatorView {
    /// The number of fields to mutate in this iteration, if limited.
    pub field_count: Option<usize>,
    pub all_chances_succeed: bool,
    /// The number of fields mutated so far in this iteration.
    pub fields_fuzzed: nat,
}

impl MutatorView {
    /// The field budget is spent: the next number mutation does nothing.
    pub open spec fn budget_spent(self) -> bool {
        self.field_count matches Some(c) && c == self.fields_fuzzed
    }

    /// Never more fields mutated than the budget allows.
    pub open spec fn within_budget(self) -> bool {
        self.field_count matches Some(c) ==> self.fields_fuzzed <= c
    }

    /// The fields mutated so far have reached the budget: a nested mutation
    /// should stop.
    pub open spec fn bail(self) -> bool {
        self.field_count matches Some(c) && self.fields_fuzzed >= c
    }

    /// The state after one more number has been mutated: under a budget the
    /// count goes up by one (staying at `usize::MAX` once there).
    pub open spec fn counted(self) -> MutatorView {
        MutatorView {
            field_count: self.field_count,
            all_chances_succeed: self.all_chances_succeed,
            fields_fuzzed: if self.field_count is Some && self.fields_fuzzed < usize::MAX {
                self.fields_fuzzed + 1
            } else {
                self.fields_fuzzed
            },
        }
    }
}

/// Object which provides helper routines for mutating data structures and RNG management.
#[derive(Debug)]
pub struct Mutator {
    pub rng: StdRng,
    flags: MutatorFlags,
    corpus_state: CorpusFuzzingState,
}

impl View for Mutator {
    type V = MutatorView;

    closed spec fn view(&self) -> MutatorView {
        MutatorView {
            field_count: self.flags.field_count,
            all_chances_succeed: self.flags.all_chances_succeed,
            fields_fuzzed: self.corpus_state.fields(),
        }
    }
}

proof fn lemma_permutation_of_indices(s: Seq<u8>, t: Seq<u8>, n: nat)
    requires
        n <= 64,
        s == Seq::new(n, |j: int| j as u8),
        s.to_multiset() == t.to_multiset(),
    ensures
        t.no_duplicates(),
        forall|k: int| 0 <= k < t.len() ==> #[trigger] t[k] < n,
{
    broadcast use vstd::seq_lib::group_to_multiset_ensures;

    assert(s.no_duplicates());
    s.lemma_multiset_has_no_duplicates();
    t.lemma_multiset_has_no_duplicates_conv();
    assert forall|k: int| 0 <= k < t.len() implies #[trigger] t[k] < n by {
        assert(t.contains(t[k]));
        assert(s.to_multiset().count(t[k]) > 0);
        assert(s.contains(t[k]));
        let j = choose|j: int| 0 <= j < s.len() && s[j] == t[k];
        assert(s[j] == j as u8);
    }
}

impl Mutator {
    pub fn new(rng: StdRng) -> (m: Mutator)
        ensures
            m.generator() == rng,
            m@.field_count is None,
            !m@.all_chances_succeed,
            m@.fields_fuzzed == 0,
            m@.within_budget(),
    {
        Mutator {
            rng,
            flags: MutatorFlags { field_count: None, all_chances_succeed: false },
            corpus_state: CorpusFuzzingState::new(),
        }
    }

    /// The random generator.
    pub closed spec fn generator(&self) -> StdRng {
        self.rng
    }

    /// The corpus state, counting the fields fuzzed so far.
    pub closed spec fn corpus(&self) -> CorpusFuzzingState {
        self.corpus_state
    }

    pub fn get_corpus_state(&self) -> (s: CorpusFuzzingState)
        ensures
            s == self.corpus(),
            s.fields() == self@.fields_fuzzed,
    {
        self.corpus_state
    }

    pub fn set_corpus_state(&mut self, state: CorpusFuzzingState)
        ensures
            final(self).corpus() == state,
            final(self)@.fields_fuzzed == state.fields(),
            final(self)@.field_count == old(self)@.field_count,
            final(self)@.all_chances_succeed == old(self)@.all_chances_succeed,
            final(self).generator() == old(self).generator(),
    {
        self.corpus_state = state;
    }

    /// Generates a random value of the given type.
    pub fn gen<T: NewFuzzed>(&mut self) -> (v: T)
        ensures
            v.generable(),
            old(self)@.within_budget() ==> final(self)@.within_budget(),
            final(self)@.field_count == old(self)@.field_count,
    {
        T::new_fuzzed(self, None)
    }

    /// Generates a number in the range from [min, max) (**note**: non-inclusive).
    /// The range must not be empty.
    pub fn random_range(&mut self, min: u64, max: u64) -> (r: u64)
        requires
            min < max,
        ensures
            min <= r < max,
            final(self)@ == old(self)@,
    {
        rng_random_range(&mut self.rng, min, max)
    }

    /// Generates a number in `[min, max)` weighted to one end of the interval:
    /// the interval is cut into thirds that are drawn with probabilities
    /// 70%, 20% and 10% from the favoured end, then a number is drawn
    /// uniformly within the third. Unweighted, or when the interval holds
    /// fewer than six numbers, the number is drawn uniformly.
    pub fn gen_weighted_range(&mut self, min: u64, max: u64, weighted: Weighted) -> (r: u64)
        requires
            min < max,
            weighted != Weighted::Unweighted ==> max - min < u64::MAX,
        ensures
            min <= r < max,
            weighted != Weighted::Unweighted && max - min + 1 >= 6 ==> exists|i: int|
                0 <= i < 3 && slice_lo(min, max, i) <= r < #[trigger] slice_hi(min, max, i),
            final(self)@ == old(self)@,
    {
        if weighted == Weighted::Unweighted {
            return self.random_range(min, max);
        }
        // weighted numbers are done in a pretty dumb way, but any other way is difficult.
        // the solution is to basically subdivide the range into thirds:
        // 1. The range we're weighted towards with a 70% probability
        // 2. The "midrange" with a 20% probability
        // 3. The opposite end with what should be a 10% probability
        let range = (max - min) + 1;
        if range < 6 {
            return self.random_range(min, max);
        }
        proof {
            lemma_slices_tile(min, max);
        }
        let slices = weighted_slices(min, max);
        let weights = slice_weights(weighted);
        let subslice_index = rng_weighted_index(&mut self.rng, weights);
        let bounds = slices[subslice_index];
        assert(bounds == slices[subslice_index as int]);
        assert(bounds.0 < bounds.1);
        let r = rng_random_range(&mut self.rng, bounds.0, bounds.1);
        assert(slice_lo(min, max, subslice_index as int) <= r < slice_hi(min, max, subslice_index as int));
        r
    }

    /// Returns whether the chance event of probability `numerator / denominator`
    /// occurred: never for a zero numerator, always when the numerator is at
    /// least the denominator, else by a draw.
    pub fn gen_chance(&mut self, numerator: u32, denominator: u32) -> (r: bool)
        ensures
            numerator == 0 ==> !r,
            0 < numerator && denominator <= numerator ==> r,
            numerator == 0 || denominator <= numerator ==> *final(self) == *old(self),
            final(self)@ == old(self)@,
    {
        if numerator == 0 {
            return false;
        }
        if numerator >= denominator {
            return true;
        }
        rng_random_ratio(&mut self.rng, numerator, denominator)
    }

    /// Helper function for quitting the recursive mutation early if the target field has already
    /// been mutated: true once as many fields as the budget allows have been
    /// mutated.
    pub fn should_early_bail_mutation(&self) -> (r: bool)
        ensures
            r == self@.bail(),
    {
        match self.flags.field_count {
            Some(count) => self.corpus_state.fields_fuzzed() >= count,
            None => false,
        }
    }

    /// Client code should call this to signal to the mutator that a new fuzzer iteration is beginning
    /// and that the mutator should reset internal state.
    pub fn random_flags(&mut self)
        ensures
            final(self)@.fields_fuzzed == 0,
            !final(self)@.all_chances_succeed,
            final(self)@.field_count matches Some(c) ==> 1 <= c < 100,
            final(self)@.within_budget(),
    {
        self.flags = MutatorFlags { field_count: None, all_chances_succeed: false };
        self.corpus_state.reset();
        if rng_random_ratio(&mut self.rng, 19, 20) {
            let count = self.random_range(1, 100);
            self.flags.field_count = Some(count as usize);
        }
    }

    /// Counts one more fuzzed field.
    pub fn increment_fields_fuzzed(&mut self)
        requires
            old(self)@.fields_fuzzed < usize::MAX,
        ensures
            final(self)@.fields_fuzzed == old(self)@.fields_fuzzed + 1,
            final(self)@.field_count == old(self)@.field_count,
            final(self)@.all_chances_succeed == old(self)@.all_chances_succeed,
            final(self).generator() == old(self).generator(),
    {
        self.corpus_state.count_field();
    }

    pub fn rng_mut(&mut self) -> (r: &mut StdRng)
        ensures
            *r == old(self).generator(),
            final(self).generator() == *final(r),
            final(self)@ == old(self)@,
    {
        &mut self.rng
    }

    /// `amount` distinct indices below `length`, drawn at random.
    pub fn sample_indices(&mut self, length: usize, amount: usize) -> (idx: Vec<usize>)
        requires
            amount < length || (amount == length && length <= u32::MAX),
        ensures
            idx@.len() == amount,
            idx@.no_duplicates(),
            forall|i: int| 0 <= i < idx@.len() ==> #[trigger] idx@[i] < length,
            final(self)@ == old(self)@,
    {
        rng_sample_indices(&mut self.rng, length, amount)
    }

    /// A random bit pattern of a `bits`-bit integer.
    pub fn random_bits(&mut self, bits: u32) -> (r: u64)
        requires
            valid_bits(bits as nat),
        ensures
            r <= max_raw_of(bits as nat),
            final(self)@ == old(self)@,
    {
        if bits == 64 {
            rng_random_u64(&mut self.rng)
        } else {
            let max = max_raw(bits);
            rng_random_range(&mut self.rng, 0, max + 1)
        }
    }

    fn new_operation(&mut self) -> (op: MutatorOperation)
        ensures
            final(self)@ == old(self)@,
    {
        let choice = rng_random_range(&mut self.rng, 0, 3);
        if choice == 0 {
            MutatorOperation::BitFlip
        } else if choice == 1 {
            MutatorOperation::Flip
        } else {
            MutatorOperation::Arithmetic
        }
    }

    /// A boundary value of the type of `T`, picked at random.
    fn select_dangerous_number<T: FuzzNumber>(&mut self) -> (v: T)
        ensures
            is_dangerous(T::bits(), v.raw()),
            final(self)@ == old(self)@,
    {
        let max = max_raw(T::bit_count());
        let choice = rng_random_range(&mut self.rng, 0, 4);
        let v = dangerous_number(max, choice);
        T::from_raw(v)
    }

    /// Flip a single bit in the given number.
    fn bit_flip<T: FuzzNumber>(&mut self, num: &mut T)
        ensures
            exists|i: u64|
                i < T::bits() && final(num).raw() == #[trigger] flip_one(old(num).raw(), i),
            final(self)@ == old(self)@,
    {
        let num_bits = T::bit_count();
        let idx = rng_random_range(&mut self.rng, 0, num_bits as u64);
        let x = num.to_raw();
        proof {
            lemma_flip_one_in_range(x, idx, T::bits());
        }
        *num = T::from_raw(x ^ (1u64 << idx));
    }

    /// Flip more than 1 bit in this number. This is a flip potentially up to
    /// the max bits in the number
    fn flip<T: FuzzNumber>(&mut self, num: &mut T)
        ensures
            exists|idx: Seq<u8>|
                valid_flip_set(T::bits(), idx) && final(num).raw() == #[trigger] flip_all(
                    old(num).raw(),
                    idx,
                ),
            final(self)@ == old(self)@,
    {
        let num_bits = T::bit_count();
        let bits_to_flip = rng_random_range(&mut self.rng, 1, num_bits as u64 + 1) as usize;

        let mut potential_bit_indices: Vec<u8> = Vec::new();
        let mut i: u32 = 0;
        while i < num_bits
            invariant
                i <= num_bits,
                num_bits <= 64,
                potential_bit_indices@ == Seq::new(i as nat, |j: int| j as u8),
            decreases num_bits - i,
        {
            potential_bit_indices.push(i as u8);
            proof {
                assert(potential_bit_indices@ =~= Seq::new((i + 1) as nat, |j: int| j as u8));
            }
            i = i + 1;
        }
        let ghost indices = potential_bit_indices@;
        let bit_indices = rng_partial_shuffle(
            &mut self.rng,
            &mut potential_bit_indices,
            bits_to_flip,
        );
        proof {
            lemma_permutation_of_indices(indices, potential_bit_indices@, num_bits as nat);
            let t = potential_bit_indices@;
            let lo = t.len() - bits_to_flip;
            assert(bit_indices@ == t.subrange(lo, t.len() as int));
            assert forall|a: int, b: int|
                0 <= a < bit_indices@.len() && 0 <= b < bit_indices@.len() && a != b implies
                bit_indices@[a] != bit_indices@[b] by {
                assert(bit_indices@[a] == t[lo + a]);
                assert(bit_indices@[b] == t[lo + b]);
            }
            assert forall|k: int| 0 <= k < bit_indices@.len() implies #[trigger] bit_indices@[k]
                < T::bits() by {
                assert(bit_indices@[k] == t[lo + k]);
            }
            assert(valid_flip_set(T::bits(), bit_indices@));
        }

        let ghost start = num.raw();
        let mut x = num.to_raw();
        let mut j: usize = 0;
        while j < bit_indices.len()
            invariant
                j <= bit_indices.len(),
                valid_flip_set(T::bits(), bit_indices@),
                valid_bits(T::bits()),
                x <= max_raw_of(T::bits()),
                x == flip_all(start, bit_indices@.subrange(0, j as int)),
            decreases bit_indices.len() - j,
        {
            let idx = bit_indices[j];
            proof {
                lemma_flip_one_in_range(x, idx as u64, T::bits());
                let next = bit_indices@.subrange(0, j + 1);
                assert(next.drop_last() =~= bit_indices@.subrange(0, j as int));
                assert(next.last() == idx);
            }
            x = x ^ (1u64 << (idx as u64));
            j = j + 1;
        }
        proof {
            assert(bit_indices@.subrange(0, j as int) =~= bit_indices@);
        }
        *num = T::from_raw(x);
    }

    /// Perform a simple arithmetic operation on the number (+ or -)
    fn arithmetic<T: FuzzNumber>(&mut self, num: &mut T)
        ensures
            exists|d: u64|
                #[trigger] small_step(old(num).raw(), final(num).raw(), d, max_raw_of(T::bits())),
            final(self)@ == old(self)@,
    {
        let added_num = rng_random_range(&mut self.rng, 1, 0x11);
        let max = max_raw(T::bit_count());
        let add = rng_random_bool(&mut self.rng);
        let x = wrapping_step(num.to_raw(), added_num, add, max);
        *num = T::from_raw(x);
        assert(small_step(old(num).raw(), num.raw(), added_num, max_raw_of(T::bits())));
    }

    /// Mutates a number after randomly selecting a mutation strategy: a
    /// boundary value (1 in 100), or else a single bit flip, a flip of several
    /// distinct bits, or a small wrapping addition or subtraction, chosen
    /// alike. When the field budget of the iteration is spent nothing changes;
    /// otherwise, under a budget, one more field is counted (the count stays
    /// at `usize::MAX` once it gets there).
    pub fn mutate<T: FuzzNumber>(&mut self, num: &mut T)
        ensures
            old(self)@.budget_spent() ==> *final(num) == *old(num) && *final(self) == *old(self),
            !old(self)@.budget_spent() ==> final(self)@ == old(self)@.counted()
                && is_number_mutation(T::bits(), old(num).raw(), final(num).raw()),
            old(self)@.within_budget() ==> final(self)@.within_budget(),
    {
        if let Some(count) = self.flags.field_count {
            let fuzzed = self.corpus_state.fields_fuzzed();
            if fuzzed == count {
                return;
            }
            if fuzzed < usize::MAX {
                self.corpus_state.count_field();
            }
        }
        let ghost counted = self@;

        if self.gen_chance(1, 100) {
            *num = self.select_dangerous_number();
            return;
        }

        let operation = self.new_operation();
        match operation {
            MutatorOperation::BitFlip => self.bit_flip(num),
            MutatorOperation::Flip => self.flip(num),
            MutatorOperation::Arithmetic => self.arithmetic(num),
        }
        assert(self@ == counted);
    }
}

} // verus!
