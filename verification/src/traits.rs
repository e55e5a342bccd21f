//! The traits through which values are generated, mutated and measured, and
//! the constraints handed to them.
use crate::mutator::{Mutator, MutatorView, Weighted};
use vstd::prelude::*;

verus! {

/// Limits on a generated or mutated value: bounds on the value (or, for a
/// collection, on its number of elements), a weighting towards one bound, and
/// a budget of serialized bytes.
pub struct Constraints<T> {
    pub min: Option<T>,
    pub max: Option<T>,
    pub weighted: Weighted,
    pub max_size: Option<usize>,
    pub base_object_size_accounted_for: bool,
}

impl<T> Constraints<T> {
    /// No limit at all.
    pub fn new() -> (c: Self)
        ensures
            c.min is None,
            c.max is None,
            c.weighted == Weighted::Unweighted,
            c.max_size is None,
            !c.base_object_size_accounted_for,
    {
        Constraints {
            min: None,
            max: None,
            weighted: Weighted::Unweighted,
            max_size: None,
            base_object_size_accounted_for: false,
        }
    }

    /// Sets the budget of serialized bytes.
    pub fn max_size(&mut self, max_size: usize)
        ensures
            final(self).max_size == Some(max_size),
            final(self).min == old(self).min,
            final(self).max == old(self).max,
            final(self).weighted == old(self).weighted,
            final(self).base_object_size_accounted_for == old(self).base_object_size_accounted_for,
    {
        self.max_size = Some(max_size);
    }
}

/// A constraint with only a byte budget: the one that collections hand down
/// to their elements.
pub open spec fn size_only<T>(c: Constraints<T>, max_size: usize, accounted: bool) -> bool {
    &&& c.min is None
    &&& c.max is None
    &&& c.weighted == Weighted::Unweighted
    &&& c.max_size == Some(max_size)
    &&& c.base_object_size_accounted_for == accounted
}

/// The serialized size of values of a type.
pub trait SerializedSize {
    /// The number of bytes the value serializes to.
    spec fn size_of(&self) -> nat;

    /// The largest size of a value built with no constraint.
    spec fn max_default_size() -> nat;

    fn serialized_size(&self) -> (r: usize)
        ensures
            r == self.size_of(),
    ;

    /// The smallest size of a value with elements.
    spec fn min_nonzero_size() -> nat;

    fn min_nonzero_elements_size() -> (r: usize)
        ensures
            r == Self::min_nonzero_size(),
    ;

    fn max_default_object_size() -> (r: usize)
        ensures
            r == Self::max_default_size(),
    ;
}

/// A type whose values the mutator can create at random.
pub trait NewFuzzed: Sized {
    type RangeType;

    /// The values that `new_fuzzed` can create.
    spec fn generable(&self) -> bool;

    /// A new random value; it keeps the mutator's field budget.
    fn new_fuzzed(mutator: &mut Mutator, constraints: Option<&Constraints<Self::RangeType>>) -> (v:
        Self)
        ensures
            v.generable(),
            old(mutator)@.within_budget() ==> final(mutator)@.within_budget(),
            final(mutator)@.field_count == old(mutator)@.field_count,
    ;
}

/// The mutator went from `before` to `after` keeping its field limit, and
/// within it if it was within it.
pub open spec fn budget_kept(before: MutatorView, after: MutatorView) -> bool {
    &&& after.field_count == before.field_count
    &&& before.within_budget() ==> after.within_budget()
}

/// Constraints that bound nothing but the byte budget (or no constraint).
pub open spec fn budget_only<T>(c: Option<&Constraints<T>>) -> bool {
    c matches Some(c) ==> (c.min is None && c.max is None && c.weighted == Weighted::Unweighted)
}

/// A type whose values the mutator can change at random.
pub trait Mutatable {
    type RangeType;

    /// The values and constraints on which `mutate` is defined.
    spec fn mutable_under(&self, constraints: Option<&Constraints<Self::RangeType>>) -> bool;

    /// The values `new` that `mutate` can turn `self` into, with the
    /// mutator's state going from `before` to `after` (which says how many
    /// fields the mutation counted).
    spec fn mutated_to(&self, new: &Self, before: MutatorView, after: MutatorView) -> bool;

    /// Mutates the value in place; it keeps the mutator's field budget.
    fn mutate(&mut self, mutator: &mut Mutator, constraints: Option<&Constraints<Self::RangeType>>)
        requires
            old(self).mutable_under(constraints),
        ensures
            old(mutator)@.within_budget() ==> final(mutator)@.within_budget(),
            final(mutator)@.field_count == old(mutator)@.field_count,
            old(self).mutated_to(final(self), old(mutator)@, final(mutator)@),
    ;
}

} // verus!
