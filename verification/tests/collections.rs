use lain::mutatable::{mutate_elements, mutate_vec_no_clone, mutate_vec_shrink_only};
use lain::{
    advanced_resize, grow_vec, mutate_char_vec, resize_grow, resize_or_replace, resize_shrink,
    shrink_vec, AsciiChar, AsciiString, Constraints, Mutatable, Mutator, NewFuzzed, ToPrimitive,
    UnsafeEnum, Utf8Char, Utf8String,
};
use rand::rngs::StdRng;
use rand::SeedableRng;

fn mutator(seed: u64) -> Mutator {
    Mutator::new(StdRng::seed_from_u64(seed))
}

fn is_cut_at_an_end(old: &[u8], new: &[u8]) -> bool {
    old.ends_with(new) || old.starts_with(new)
}

#[test]
fn shrink_vec_removes_from_an_end_and_keeps_the_minimum() {
    let mut m = mutator(1);
    for round in 0..300 {
        let old: Vec<u8> = (0..(round % 40 + 1) as u8).collect();
        let min = (round % 3) as usize;
        let min = if min > old.len() { old.len() } else { min };
        let mut v = old.clone();
        shrink_vec(&mut v, &mut m, Some(min));
        assert!(v.len() >= min);
        assert!(is_cut_at_an_end(&old, &v));
    }
}

#[test]
fn shrink_vec_leaves_an_empty_vec_alone() {
    let mut m = mutator(2);
    let mut v: Vec<u8> = Vec::new();
    shrink_vec(&mut v, &mut m, None);
    assert!(v.is_empty());
}

#[test]
fn shrink_vec_can_empty_without_minimum() {
    let mut m = mutator(3);
    let mut emptied = false;
    for _ in 0..500 {
        let mut v = vec![1u8, 2, 3];
        shrink_vec(&mut v, &mut m, None);
        assert!(is_cut_at_an_end(&[1, 2, 3], &v));
        if v.is_empty() {
            emptied = true;
        }
    }
    assert!(emptied);
}

#[test]
fn grow_vec_respects_the_element_limit() {
    let mut m = mutator(4);
    for round in 0..300 {
        let old: Vec<u8> = vec![9; round % 10];
        let mut v = old.clone();
        grow_vec(&mut v, &mut m, Some(12), None);
        assert!(v.len() <= 12);
        assert!(v.len() >= old.len());
        assert!(v.starts_with(&old) || v.ends_with(&old));
    }
}

#[test]
fn grow_vec_respects_the_byte_budget() {
    let mut m = mutator(5);
    for round in 0..300 {
        let old: Vec<u32> = vec![1; round % 7];
        let mut v = old.clone();
        grow_vec(&mut v, &mut m, None, Some(10));
        // u32 elements are four bytes each: at most two fit in ten bytes
        assert!(v.len() <= old.len() + 2);
        assert!(v.len() >= old.len());
    }
}

#[test]
fn grow_vec_grows_an_empty_vec() {
    let mut m = mutator(6);
    let mut v: Vec<u8> = Vec::new();
    grow_vec(&mut v, &mut m, None, None);
    assert!(!v.is_empty() && v.len() < 9);
}

#[test]
fn advanced_resize_outcomes() {
    let mut m = mutator(7);
    let old: Vec<u8> = (0..20).collect();
    let mut grew = false;
    let mut shrank = false;
    for _ in 0..500 {
        let mut v = old.clone();
        advanced_resize(&mut v, &mut m);
        if v.len() > old.len() {
            grew = true;
            assert!(v.len() <= old.len() * 2 || v.starts_with(&old));
        } else {
            shrank = true;
            assert!(v.len() <= old.len());
        }
    }
    assert!(grew && shrank);
}

#[test]
fn advanced_resize_grows_an_empty_vec_by_one_to_fifteen() {
    let mut m = mutator(8);
    for _ in 0..100 {
        let mut v: Vec<u8> = Vec::new();
        advanced_resize(&mut v, &mut m);
        assert!(!v.is_empty() && v.len() <= 15);
    }
}

#[test]
fn mutate_char_vec_replaces_some_but_not_all() {
    let mut m = mutator(9);
    let old: Vec<char> = "abcdefgh".chars().collect();
    for _ in 0..300 {
        let mut v = old.clone();
        mutate_char_vec(&mut v, &mut m);
        if v.len() == old.len() {
            let same = v.iter().zip(old.iter()).filter(|(a, b)| a == b).count();
            assert!(same >= 1);
        }
    }
}

#[test]
fn string_mutation_changes_text() {
    let mut m = mutator(10);
    let mut changed = 0;
    for _ in 0..100 {
        let mut s = String::from("hello world");
        s.mutate(&mut m, None);
        if s != "hello world" {
            changed += 1;
        }
    }
    assert!(changed > 90);
}

#[test]
fn vec_mutation_keeps_limits() {
    let mut m = mutator(11);
    let mut c = Constraints::new();
    c.min = Some(2);
    c.max = Some(6);
    for round in 0..2000 {
        let mut v: Vec<u8> = vec![0; 2 + round % 5];
        v.mutate(&mut m, Some(&c));
        assert!(v.len() >= 2 && v.len() <= 6);
    }
}

#[test]
fn vec_mutation_changes_elements() {
    let mut m = mutator(12);
    let mut v: Vec<u8> = vec![0; 32];
    v.mutate(&mut m, None);
    assert!(v.iter().any(|x| *x != 0) || v.len() != 32);
}

#[test]
fn slice_mutation_keeps_length_and_changes_elements() {
    let mut m = mutator(13);
    let mut v: Vec<u16> = vec![5; 10];
    v.as_mut_slice().mutate(&mut m, None);
    assert_eq!(v.len(), 10);
    assert!(v.iter().all(|x| *x != 5));
}

#[test]
fn slice_mutation_stops_when_the_field_budget_is_spent() {
    let mut m = mutator(21);
    loop {
        m.random_flags();
        let saved = m.get_corpus_state();
        let mut probe = 0u8;
        m.mutate(&mut probe);
        let limited = format!("{:?}", m.get_corpus_state()) != format!("{:?}", saved);
        m.set_corpus_state(saved);
        if limited {
            break;
        }
    }
    let mut v: Vec<u64> = vec![0; 200];
    v.as_mut_slice().mutate(&mut m, None);
    // the budget allows fewer than a hundred fields per iteration: the slice
    // mutates elements in order until it is reached, then stops
    assert!(m.should_early_bail_mutation());
    let first_untouched = v.iter().rposition(|x| *x != 0).map(|p| p + 1).unwrap_or(0);
    assert!(first_untouched < 100);
    assert!(v[100..].iter().all(|x| *x == 0));
}

#[test]
fn slice_mutation_under_a_small_budget_does_nothing() {
    let mut m = mutator(22);
    let mut c = Constraints::new();
    c.max_size(100);
    let mut v: Vec<u16> = vec![5; 10];
    v.as_mut_slice().mutate(&mut m, Some(&c));
    assert_eq!(v, vec![5; 10]);
}

#[test]
fn array_mutation_changes_elements() {
    let mut m = mutator(23);
    let mut a = [1u8; 8];
    a.mutate(&mut m, None);
    assert!(a.iter().any(|x| *x != 1));
}

#[test]
fn option_mutation_can_appear_and_vanish() {
    let mut m = mutator(14);
    let mut appeared = false;
    let mut vanished = false;
    for _ in 0..500 {
        let mut o: Option<u8> = None;
        o.mutate(&mut m, None);
        if o.is_some() {
            appeared = true;
        }
        let mut p: Option<u8> = Some(3);
        p.mutate(&mut m, None);
        if p.is_none() {
            vanished = true;
        }
    }
    assert!(appeared && vanished);
}

#[test]
fn box_mutation_mutates_the_content() {
    let mut m = mutator(15);
    let mut b = Box::new(0u64);
    b.mutate(&mut m, None);
    let mut changed = *b != 0;
    for _ in 0..10 {
        b.mutate(&mut m, None);
        changed = changed || *b != 0;
    }
    assert!(changed);
}

#[test]
fn bool_mutation_draws_both_values() {
    let mut m = mutator(16);
    let mut t = 0;
    for _ in 0..200 {
        let mut b = false;
        b.mutate(&mut m, None);
        if b {
            t += 1;
        }
    }
    assert!(t > 50 && t < 150);
}

#[test]
fn new_fuzzed_numbers_respect_bounds() {
    let mut m = mutator(17);
    let mut c = Constraints::new();
    c.min = Some(5u32);
    c.max = Some(10000u32);
    for _ in 0..300 {
        let v = u32::new_fuzzed(&mut m, Some(&c));
        assert!((5..10000).contains(&v));
    }
}

#[test]
fn new_fuzzed_chars_are_valid() {
    let mut m = mutator(18);
    for _ in 0..300 {
        let c = char::new_fuzzed(&mut m, None);
        assert!((c as u32) < 0x110000);
    }
}

#[test]
fn unsafe_enum_mutation_gives_an_invalid_value() {
    let mut m = mutator(30);
    assert_eq!(true.to_primitive(), 1);
    assert_eq!(false.to_primitive(), 0);
    for start in [false, true] {
        let mut e: UnsafeEnum<bool, u8> = UnsafeEnum::Valid(start);
        e.mutate(&mut m, None);
        match e {
            UnsafeEnum::Invalid(_) => {}
            UnsafeEnum::Valid(_) => panic!("still a valid variant"),
        }
    }
    let mut e: UnsafeEnum<bool, u8> = UnsafeEnum::Invalid(40);
    e.mutate(&mut m, None);
    assert!(matches!(e, UnsafeEnum::Invalid(_)));
}

#[test]
fn ascii_string_mutation_stays_ascii() {
    let mut m = mutator(31);
    for _ in 0..200 {
        let mut s = AsciiString { inner: vec![AsciiChar(b'a'); 6] };
        s.mutate(&mut m, None);
        assert!(s.inner.iter().all(|c| c.0 < 0x80));
    }
}

#[test]
fn utf8_string_mutation_replaces_characters() {
    let mut m = mutator(32);
    let mut changed = 0;
    for _ in 0..100 {
        let mut s = Utf8String { inner: vec![Utf8Char('x'); 5] };
        s.mutate(&mut m, None);
        if s.inner.len() != 5 || s.inner.iter().any(|c| c.0 != 'x') {
            changed += 1;
        }
    }
    assert!(changed > 90);
}

fn is_doc_amount(len: usize, k: usize) -> bool {
    k == len / 4 || k == len / 2 || k == len - len / 4 || (1..=8).contains(&k)
}

#[test]
fn shrink_vec_removes_a_documented_amount() {
    let mut m = mutator(40);
    for round in 0..500 {
        let len = round % 60 + 1;
        let mut v = vec![1u8; len];
        shrink_vec(&mut v, &mut m, None);
        assert!(is_doc_amount(len, len - v.len()), "len {} left {}", len, v.len());
    }
}

#[test]
fn grow_vec_adds_a_documented_amount() {
    let mut m = mutator(41);
    for round in 0..500 {
        let len = round % 60;
        let mut v = vec![1u8; len];
        grow_vec(&mut v, &mut m, None, None);
        let k = v.len() - len;
        if len == 0 {
            assert!((1..=8).contains(&k));
        } else {
            assert!(is_doc_amount(len, k), "len {} added {}", len, k);
        }
    }
}

#[test]
fn grow_vec_under_a_roomy_byte_budget_adds_one_to_eight() {
    let mut m = mutator(40);
    for _ in 0..300 {
        let mut v: Vec<u8> = Vec::new();
        grow_vec(&mut v, &mut m, None, Some(100));
        assert!(v.len() >= 1 && v.len() <= 8);
    }
}

#[test]
fn resize_grow_appends_fresh_elements() {
    let mut m = mutator(41);
    let old: Vec<u8> = (0..10).collect();
    for _ in 0..100 {
        let mut v = old.clone();
        resize_grow(&mut v, &mut m, true);
        assert!(v.len() > old.len() && v.len() <= old.len() + 15);
        assert!(v.starts_with(&old));
    }
}

#[test]
fn resize_grow_inserts_a_copy_of_a_run() {
    let mut m = mutator(42);
    let old: Vec<u8> = (0..10).collect();
    for _ in 0..100 {
        let mut v = old.clone();
        resize_grow(&mut v, &mut m, false);
        let added = v.len() - old.len();
        assert!(added <= old.len());
        // some run old[start..start + added] sits at some position `at`
        let found = (0..=old.len()).any(|at| {
            v[..at] == old[..at]
                && v[at + added..] == old[at..]
                && (0..=old.len() - added).any(|start| v[at..at + added] == old[start..start + added])
        });
        assert!(found);
    }
}

#[test]
fn resize_shrink_by_range_removes_a_run() {
    let mut m = mutator(43);
    let old: Vec<u8> = (0..10).collect();
    for _ in 0..100 {
        let mut v = old.clone();
        resize_shrink(&mut v, &mut m, true);
        let removed = old.len() - v.len();
        let found = (0..=v.len()).any(|start| {
            v[..start] == old[..start] && v[start..] == old[start + removed..]
        });
        assert!(found);
    }
}

#[test]
fn resize_shrink_at_an_end_removes_at_least_one() {
    let mut m = mutator(44);
    let old: Vec<u8> = (0..10).collect();
    for _ in 0..100 {
        let mut v = old.clone();
        resize_shrink(&mut v, &mut m, false);
        assert!(v.len() < old.len());
        assert!(is_cut_at_an_end(&old, &v));
    }
}

#[test]
fn resize_or_replace_without_resize_leaves_empty_alone() {
    let mut m = mutator(45);
    let mut v: Vec<char> = Vec::new();
    resize_or_replace(&mut v, &mut m, false);
    assert!(v.is_empty());
}

#[test]
fn resize_or_replace_without_resize_keeps_the_length() {
    let mut m = mutator(46);
    let old: Vec<char> = "abcdefgh".chars().collect();
    for _ in 0..100 {
        let mut v = old.clone();
        resize_or_replace(&mut v, &mut m, false);
        assert_eq!(v.len(), old.len());
        let same = v.iter().zip(old.iter()).filter(|(a, b)| a == b).count();
        assert!(same >= 1);
    }
}

#[test]
fn resize_or_replace_with_resize_grows_an_empty_vec() {
    let mut m = mutator(47);
    let mut v: Vec<char> = Vec::new();
    resize_or_replace(&mut v, &mut m, true);
    assert!(!v.is_empty() && v.len() <= 15);
}

#[test]
fn mutate_elements_changes_every_element() {
    let mut m = mutator(50);
    let mut v: Vec<u16> = vec![5; 10];
    mutate_elements(v.as_mut_slice(), &mut m, None);
    assert!(v.iter().all(|x| *x != 5));
}

#[test]
fn mutate_elements_skips_budgets_it_cannot_use() {
    let mut m = mutator(51);
    for budget in [1usize, 3, 100] {
        let mut c = Constraints::new();
        c.max_size(budget);
        let mut v: Vec<u16> = vec![5; 10];
        mutate_elements(v.as_mut_slice(), &mut m, Some(&c));
        assert_eq!(v, vec![5; 10]);
    }
    let mut c = Constraints::new();
    c.max_size(2);
    let mut v: Vec<u16> = vec![5; 10];
    mutate_elements(v.as_mut_slice(), &mut m, Some(&c));
    assert!(v.iter().all(|x| *x != 5));
}

#[test]
fn mutate_vec_shrink_only_never_grows_nor_empties() {
    let mut m = mutator(52);
    for _ in 0..500 {
        let mut v: Vec<u8> = vec![3; 12];
        mutate_vec_shrink_only(&mut v, &mut m, None);
        assert!(!v.is_empty() && v.len() <= 12);
    }
}

#[test]
fn mutate_vec_no_clone_grows_only_under_constraints() {
    let mut m = mutator(53);
    let mut shrank = false;
    for _ in 0..2000 {
        let mut v: Vec<u8> = vec![3; 12];
        mutate_vec_no_clone(&mut v, &mut m, None);
        assert!(v.len() <= 12);
        shrank |= v.len() < 12;
    }
    assert!(shrank);
    let c = Constraints::new();
    let mut grew = false;
    for _ in 0..2000 {
        let mut v: Vec<u8> = vec![3; 12];
        mutate_vec_no_clone(&mut v, &mut m, Some(&c));
        grew |= v.len() > 12;
    }
    assert!(grew);
}
