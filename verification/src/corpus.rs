use vstd::prelude::*;

verus! {

/// Represents the state of the current corpus item being fuzzed.
#[derive(Debug, Clone, Copy)]
pub struct CorpusFuzzingState {
    pub(crate) fields_fuzzed: usize,
}

impl Default for CorpusFuzzingState {
    fn default() -> (s: Self)
        ensures
            s.fields() == 0,
    {
        CorpusFuzzingState { fields_fuzzed: 0 }
    }
}

impl CorpusFuzzingState {
    /// The number of fields that have been fuzzed so far.
    pub closed spec fn fields(&self) -> nat {
        self.fields_fuzzed as nat
    }

    /// A state in which no field has been fuzzed yet.
    pub fn new() -> (s: Self)
        ensures
            s.fields() == 0,
    {
        CorpusFuzzingState { fields_fuzzed: 0 }
    }

    /// The number of fields fuzzed so far, as a value.
    pub(crate) fn fields_fuzzed(&self) -> (n: usize)
        ensures
            n == self.fields(),
    {
        self.fields_fuzzed
    }

    /// Counts one more fuzzed field.
    pub(crate) fn count_field(&mut self)
        requires
            old(self).fields() < usize::MAX,
        ensures
            final(self).fields() == old(self).fields() + 1,
    {
        self.fields_fuzzed = self.fields_fuzzed + 1;
    }

    /// Forget every field fuzzed so far.
    pub fn reset(&mut self)
        ensures
            final(self).fields() == 0,
    {
        self.fields_fuzzed = 0;
    }
}

} // verus!
