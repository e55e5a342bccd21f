use lain::{slice_weights, weighted_slices, CorpusFuzzingState, FuzzNumber, Mutator, Weighted};
use rand::rngs::StdRng;
use rand::{Rng, SeedableRng};

fn mutator(seed: u64) -> Mutator {
    Mutator::new(StdRng::seed_from_u64(seed))
}

fn fields(state: &CorpusFuzzingState) -> String {
    format!("{:?}", state)
}

/// Whether the mutator's current iteration limits the fields mutated: only
/// then does a number mutation count its field.
fn is_limited(m: &mut Mutator) -> bool {
    let saved = m.get_corpus_state();
    let mut probe: u8 = 0;
    m.mutate(&mut probe);
    let counted = fields(&m.get_corpus_state()) != fields(&saved);
    m.set_corpus_state(saved);
    counted
}

/// A mutator whose iteration limits the number of fields mutated.
fn limited_mutator(seed: u64) -> Mutator {
    let mut m = mutator(seed);
    loop {
        m.random_flags();
        if is_limited(&mut m) {
            return m;
        }
    }
}

#[test]
fn reset_forgets_fuzzed_fields() {
    let mut m = mutator(1);
    m.increment_fields_fuzzed();
    m.increment_fields_fuzzed();
    let mut state = m.get_corpus_state();
    assert_eq!(fields(&state), "CorpusFuzzingState { fields_fuzzed: 2 }");
    state.reset();
    assert_eq!(fields(&state), "CorpusFuzzingState { fields_fuzzed: 0 }");
}

#[test]
fn corpus_state_reads_back_what_was_set() {
    let mut a = mutator(2);
    a.increment_fields_fuzzed();
    a.increment_fields_fuzzed();
    a.increment_fields_fuzzed();
    let saved = a.get_corpus_state();
    let mut b = mutator(3);
    b.set_corpus_state(saved);
    assert_eq!(fields(&b.get_corpus_state()), fields(&saved));
    assert_eq!(fields(&saved), "CorpusFuzzingState { fields_fuzzed: 3 }");
}

#[test]
fn new_mutator_has_no_field_limit() {
    let m = mutator(4);
    assert!(!m.should_early_bail_mutation());
    assert_eq!(fields(&m.get_corpus_state()), "CorpusFuzzingState { fields_fuzzed: 0 }");
}

#[test]
fn default_corpus_state_is_empty() {
    let s = CorpusFuzzingState::default();
    assert_eq!(fields(&s), "CorpusFuzzingState { fields_fuzzed: 0 }");
}

#[test]
fn random_range_stays_in_bounds_and_varies() {
    let mut m = mutator(5);
    let mut seen_other_than_min = false;
    for _ in 0..1000 {
        let r = m.random_range(10, 20);
        assert!((10..20).contains(&r));
        if r != 10 {
            seen_other_than_min = true;
        }
    }
    assert!(seen_other_than_min);
    assert_eq!(m.random_range(7, 8), 7);
}

#[test]
fn gen_chance_extremes() {
    let mut m = mutator(6);
    for _ in 0..100 {
        assert!(!m.gen_chance(0, 100));
        assert!(m.gen_chance(100, 100));
        assert!(m.gen_chance(7, 3));
        assert!(!m.gen_chance(0, 0));
    }
}

#[test]
fn gen_chance_draws_both_outcomes() {
    let mut m = mutator(7);
    let hits = (0..1000).filter(|_| m.gen_chance(1, 2)).count();
    assert!(hits > 300 && hits < 700);
}

#[test]
fn random_flags_resets_the_iteration() {
    let mut m = mutator(8);
    m.increment_fields_fuzzed();
    m.random_flags();
    assert_eq!(fields(&m.get_corpus_state()), "CorpusFuzzingState { fields_fuzzed: 0 }");
}

#[test]
fn random_flags_usually_limits_fields() {
    let mut m = mutator(9);
    let limited = (0..200)
        .filter(|_| {
            m.random_flags();
            is_limited(&mut m)
        })
        .count();
    assert!(limited > 150);
}

#[test]
fn increment_fields_fuzzed_counts() {
    let mut m = mutator(10);
    for _ in 0..5 {
        m.increment_fields_fuzzed();
    }
    assert_eq!(fields(&m.get_corpus_state()), "CorpusFuzzingState { fields_fuzzed: 5 }");
}

#[test]
fn mutate_changes_numbers_and_counts_fields() {
    let mut m = limited_mutator(11);
    let mut value: u32 = 0x1234_5678;
    m.mutate(&mut value);
    assert_eq!(fields(&m.get_corpus_state()), "CorpusFuzzingState { fields_fuzzed: 1 }");
}

#[test]
fn mutate_stops_when_the_field_budget_is_spent() {
    let mut m = limited_mutator(12);
    let mut count = 0;
    let mut value: u8 = 0;
    loop {
        let before = fields(&m.get_corpus_state());
        m.mutate(&mut value);
        if fields(&m.get_corpus_state()) == before {
            break;
        }
        count += 1;
        assert!(count < 100);
    }
    // once spent, nothing changes any more
    let frozen = value;
    for _ in 0..50 {
        m.mutate(&mut value);
        assert_eq!(value, frozen);
    }
    assert!(count >= 1);
}

#[test]
fn mutate_without_limit_usually_changes_the_value() {
    let mut m = mutator(13);
    let mut changed = 0;
    for i in 0..500u64 {
        let mut v: u64 = i * 7919;
        m.mutate(&mut v);
        if v != i * 7919 {
            changed += 1;
        }
    }
    assert!(changed > 490);
    assert_eq!(fields(&m.get_corpus_state()), "CorpusFuzzingState { fields_fuzzed: 0 }");
}

#[test]
fn mutate_signed_numbers() {
    let mut m = mutator(14);
    let mut changed = 0;
    for _ in 0..200 {
        let mut v: i16 = -5;
        m.mutate(&mut v);
        if v != -5 {
            changed += 1;
        }
    }
    assert!(changed > 190);
}

#[test]
fn raw_patterns_of_signed_numbers() {
    assert_eq!((-1i8).to_raw(), 0xff);
    assert_eq!(i8::from_raw(0x80), i8::MIN);
    assert_eq!((-2i64).to_raw(), u64::MAX - 1);
    assert_eq!(u16::from_raw(0xbeef), 0xbeef);
    assert_eq!(<u32 as FuzzNumber>::bit_count(), 32);
}

#[test]
fn weighted_slices_cut_into_thirds() {
    assert_eq!(weighted_slices(0, 100), [(0, 33), (33, 66), (66, 100)]);
    assert_eq!(weighted_slices(10, 15), [(10, 12), (12, 14), (14, 15)]);
}

#[test]
fn slice_weights_lean_towards_one_end() {
    assert_eq!(slice_weights(Weighted::Min), [7, 2, 1]);
    assert_eq!(slice_weights(Weighted::Max), [1, 2, 7]);
}

#[test]
fn gen_weighted_range_stays_in_bounds() {
    let mut m = mutator(15);
    for w in [Weighted::Unweighted, Weighted::Min, Weighted::Max] {
        for _ in 0..300 {
            let r = m.gen_weighted_range(100, 200, w);
            assert!((100..200).contains(&r));
        }
        for _ in 0..50 {
            let r = m.gen_weighted_range(3, 6, w);
            assert!((3..6).contains(&r));
        }
    }
}

#[test]
fn gen_weighted_range_favours_the_chosen_end() {
    let mut m = mutator(16);
    let low = (0..1000)
        .filter(|_| m.gen_weighted_range(0, 300, Weighted::Min) < 100)
        .count();
    assert!(low > 600);
    let high = (0..1000)
        .filter(|_| m.gen_weighted_range(0, 300, Weighted::Max) >= 200)
        .count();
    assert!(high > 600);
}

#[test]
fn random_bits_fit_the_width() {
    let mut m = mutator(17);
    for _ in 0..200 {
        assert!(m.random_bits(8) <= 0xff);
        assert!(m.random_bits(16) <= 0xffff);
    }
}

#[test]
fn sample_indices_are_distinct_and_in_range() {
    let mut m = mutator(18);
    let idx = m.sample_indices(10, 6);
    assert_eq!(idx.len(), 6);
    for (a, x) in idx.iter().enumerate() {
        assert!(*x < 10);
        for y in &idx[a + 1..] {
            assert_ne!(x, y);
        }
    }
}

#[test]
fn rng_mut_gives_the_generator() {
    let mut m = mutator(19);
    let x: u32 = m.rng_mut().random_range(0..5);
    assert!(x < 5);
}

#[test]
fn gen_builds_values() {
    let mut m = mutator(20);
    let _b: bool = m.gen();
    let _c: char = m.gen();
    let v: u8 = m.gen();
    let _ = v;
}

fn check_step_and_back(x: u64, d: u64, max: u64, expected: u64) {
    let up = lain::number::wrapping_step(x, d, true, max);
    assert_eq!(up, expected);
    assert_ne!(up, x);
    assert_eq!(lain::number::wrapping_step(up, d, false, max), x);
}

#[test]
fn wrapping_steps_undo_each_other() {
    check_step_and_back(250, 10, 0xff, 4);
    check_step_and_back(3, 16, 0xffff, 19);
    check_step_and_back(u64::MAX - 2, 5, u64::MAX, 2);
}

#[test]
fn wrapping_step_below_zero() {
    assert_eq!(lain::number::wrapping_step(2, 5, false, 0xff), 0xfd);
    assert_eq!(lain::number::wrapping_step(0, 1, false, u64::MAX), u64::MAX);
}

#[test]
fn boundary_values_of_each_width() {
    let m8 = lain::number::max_raw(8);
    assert_eq!(m8, 0xff);
    assert_eq!(lain::number::dangerous_number(m8, 0), 0);
    assert_eq!(lain::number::dangerous_number(m8, 1), 0xff);
    assert_eq!(lain::number::dangerous_number(m8, 2), 0x7f);
    assert_eq!(lain::number::dangerous_number(m8, 3), 0x80);
    let m32 = lain::number::max_raw(32);
    assert_eq!(lain::number::dangerous_number(m32, 3), 0x8000_0000);
    assert_eq!(lain::number::max_raw(64), u64::MAX);
}

#[test]
fn random_bits_of_full_width_vary() {
    let mut m = mutator(24);
    let a = m.random_bits(64);
    let distinct = (0..20).filter(|_| m.random_bits(64) != a).count();
    assert!(distinct >= 19);
}

#[test]
fn early_bail_only_once_the_budget_is_reached() {
    let mut m = limited_mutator(25);
    // nothing fuzzed yet: no reason to stop
    assert!(!m.should_early_bail_mutation());
    let mut value: u16 = 0;
    let mut steps = 0;
    while !m.should_early_bail_mutation() {
        m.mutate(&mut value);
        steps += 1;
        assert!(steps < 100);
    }
    // once the budget is reached the next mutation changes nothing
    let frozen = value;
    m.mutate(&mut value);
    assert_eq!(value, frozen);
    assert!(steps >= 1);
}

#[test]
fn early_bail_after_fields_set_past_the_budget() {
    let mut m = limited_mutator(26);
    for _ in 0..100 {
        m.increment_fields_fuzzed();
    }
    assert!(m.should_early_bail_mutation());
}
