//! Growing and shrinking vectors at random.
use crate::mutator::Mutator;
use crate::traits::{size_only, Constraints, NewFuzzed, SerializedSize};
use crate::vec_ops::{clone_range, drain_range, insert_all};
use vstd::prelude::*;

verus! {

// we'll shrink by a factor of 1/4, 1/2, 3/4, or down to [0, 8] bytes
#[derive(Copy, Clone, PartialEq, Eq, Structural)]
enum VecResizeCount {
    Quarter,
    Half,
    ThreeQuarters,
    FixedBytes,
    AllBytes,
}

#[derive(Copy, Clone, PartialEq, Eq, Structural)]
enum VecResizeDirection {
    FromBeginning,
    FromEnd,
}

#[derive(Copy, Clone, PartialEq, Eq, Structural)]
pub(crate) enum VecResizeType {
    Grow,
    Shrink,
}

fn new_resize_count(mutator: &mut Mutator) -> (c: VecResizeCount)
    ensures
        final(mutator)@ == old(mutator)@,
{
    let choice = mutator.random_range(0, 5);
    if choice == 0 {
        VecResizeCount::Quarter
    } else if choice == 1 {
        VecResizeCount::Half
    } else if choice == 2 {
        VecResizeCount::ThreeQuarters
    } else if choice == 3 {
        VecResizeCount::FixedBytes
    } else {
        VecResizeCount::AllBytes
    }
}

fn new_resize_direction(mutator: &mut Mutator) -> (d: VecResizeDirection)
    ensures
        final(mutator)@ == old(mutator)@,
{
    if mutator.random_range(0, 2) == 0 {
        VecResizeDirection::FromBeginning
    } else {
        VecResizeDirection::FromEnd
    }
}

pub(crate) fn new_resize_type(mutator: &mut Mutator) -> (t: VecResizeType)
    ensures
        final(mutator)@ == old(mutator)@,
{
    if mutator.random_range(0, 2) == 0 {
        VecResizeType::Grow
    } else {
        VecResizeType::Shrink
    }
}

fn min_usize(a: usize, b: usize) -> (m: usize)
    ensures
        m == if a <= b {
            a
        } else {
            b
        },
{
    if a <= b {
        a
    } else {
        b
    }
}

/// The lower bound that a shrink respects: the given one, or zero.
pub open spec fn min_or_zero(min_size: Option<usize>) -> int {
    match min_size {
        Some(m) => m as int,
        None => 0,
    }
}

/// `new` is `old` with its first or its last `n` elements removed.
pub open spec fn cut_at_an_end<T>(old: Seq<T>, new: Seq<T>, n: int) -> bool {
    new == old.subrange(n, old.len() as int) || new == old.subrange(0, old.len() - n)
}

spec fn kind_of(c: VecResizeCount) -> int {
    match c {
        VecResizeCount::Quarter => 0,
        VecResizeCount::Half => 1,
        VecResizeCount::ThreeQuarters => 2,
        VecResizeCount::FixedBytes => 3,
        VecResizeCount::AllBytes => 4,
    }
}

pub open spec fn min_int(a: int, b: int) -> int {
    if a <= b {
        a
    } else {
        b
    }
}

/// How many elements a shrink of `len` elements with lower bound `min_size`
/// removes, for the kind of resize drawn (a quarter, half or three quarters
/// of `len`, else a fixed count), the fixed count drawn (1 to 8) and the
/// count drawn when a fraction comes to nothing (0 to `len`); never more
/// than the bound leaves room for.
pub open spec fn shrink_amount(len: int, min_size: int, kind: int, fixed: int, fallback: int) -> int {
    let base = if kind == 0 {
        len / 4
    } else if kind == 1 {
        len / 2
    } else if kind == 2 {
        len - len / 4
    } else {
        min_int(fixed, len)
    };
    min_int(if base == 0 { fallback } else { base }, len - min_size)
}

/// A change of `k` elements to a vector of `len` elements is one that the
/// documentation of growing and shrinking allows: a quarter, half or three
/// quarters of `len`, or a fixed count from 1 to 8.
pub open spec fn doc_amount(len: int, k: int) -> bool {
    k == len / 4 || k == len / 2 || k == len - len / 4 || 1 <= k <= 8
}

/// Shrinks a `Vec`.
/// This will randomly select to resize by a factor of 1/4, 1/2, 3/4, or a fixed number of bytes
/// in the range of [1, 8]. Elements may be removed randomly from the beginning or end of the the vec.
/// The vector keeps at least `min_size` elements. (The fixed-count kind and
/// the all-bytes kind both remove the fixed count.)
pub fn shrink_vec<T>(vec: &mut Vec<T>, mutator: &mut Mutator, min_size: Option<usize>)
    requires
        old(vec).len() < usize::MAX,
        old(vec).len() > 0 ==> min_or_zero(min_size) <= old(vec).len(),
    ensures
        old(vec).len() == 0 ==> final(vec)@ == old(vec)@ && *final(mutator) == *old(mutator),
        old(vec).len() > 0 ==> final(vec)@.len() >= min_or_zero(min_size),
        min_size is None ==> doc_amount(old(vec).len() as int, old(vec).len() - final(vec).len()),
        final(vec).len() <= old(vec).len(),
        old(vec).len() >= 4 ==> exists|k: int|
            1 <= k && #[trigger] doc_amount(old(vec).len() as int, k) && old(vec).len()
                - final(vec).len() == min_int(k, old(vec).len() - min_or_zero(min_size)),
        old(vec).len() >= 4 && old(vec).len() > min_or_zero(min_size) ==> final(vec).len() < old(
            vec,
        ).len(),
        old(vec).len() > 0 ==> exists|kind: int, fixed: int, fallback: int|
            0 <= kind < 5 && 1 <= fixed < 9 && 0 <= fallback <= old(vec).len()
                && #[trigger] cut_at_an_end(
                old(vec)@,
                final(vec)@,
                shrink_amount(old(vec).len() as int, min_or_zero(min_size), kind, fixed, fallback),
            ),
        final(mutator)@ == old(mutator)@,
{
    if vec.len() == 0 {
        return;
    }
    let min_size = match min_size {
        Some(m) => m,
        None => 0,
    };
    let len = vec.len();

    let resize_count = new_resize_count(mutator);
    let ghost kind = kind_of(resize_count);
    let ghost mut fixed_drawn: int = 1;
    let ghost mut fallback_drawn: int = 0;
    let mut num_elements = match resize_count {
        VecResizeCount::Quarter => len / 4,
        VecResizeCount::Half => len / 2,
        VecResizeCount::ThreeQuarters => len - (len / 4),
        VecResizeCount::FixedBytes | VecResizeCount::AllBytes => {
            let fixed = mutator.random_range(1, 9) as usize;
            proof {
                fixed_drawn = fixed as int;
            }
            min_usize(fixed, len)
        },
    };

    if num_elements == 0 {
        num_elements = mutator.random_range(0, len as u64 + 1) as usize;
        proof {
            fallback_drawn = num_elements as int;
        }
    }

    num_elements = min_usize(num_elements, len - min_size);
    assert(num_elements == shrink_amount(len as int, min_size as int, kind, fixed_drawn, fallback_drawn));
    proof {
        lemma_shrink_amount(len as int, min_size as int, kind, fixed_drawn, fallback_drawn);
    }

    // Special case probably isn't required here, but better to be explicit
    if num_elements == len && min_size == 0 {
        vec.clear();
        assert(vec@ =~= old(vec)@.subrange(len as int, len as int));
        assert(cut_at_an_end(old(vec)@, vec@, num_elements as int));
        return;
    }

    match new_resize_direction(mutator) {
        VecResizeDirection::FromBeginning => {
            drain_range(vec, 0, num_elements);
            assert(vec@ =~= old(vec)@.subrange(num_elements as int, len as int));
        },
        VecResizeDirection::FromEnd => {
            drain_range(vec, len - num_elements, len);
            assert(vec@ =~= old(vec)@.subrange(0, len - num_elements));
        },
    }
    assert(cut_at_an_end(old(vec)@, vec@, num_elements as int));
}

/// A shrink of `len` elements that keeps at least `min` of them removes no
/// more than `len - min`; from four elements up it removes exactly the
/// documented amount (a quarter, half or three quarters of `len`, or a fixed
/// count from 1 to 8) cut down to that room, and so at least one element
/// whenever there is room.
pub proof fn lemma_shrink_amount(len: int, min: int, kind: int, fixed: int, fallback: int)
    requires
        0 <= min <= len,
        0 <= kind < 5,
        1 <= fixed < 9,
        0 <= fallback <= len,
    ensures
        0 <= shrink_amount(len, min, kind, fixed, fallback) <= len - min,
        len >= 4 ==> exists|k: int|
            1 <= k && #[trigger] doc_amount(len, k) && shrink_amount(len, min, kind, fixed, fallback)
                == min_int(k, len - min),
        len >= 4 && len > min ==> shrink_amount(len, min, kind, fixed, fallback) >= 1,
{
    if len >= 4 {
        let k: int = if kind == 0 {
            len / 4
        } else if kind == 1 {
            len / 2
        } else if kind == 2 {
            len - len / 4
        } else {
            min_int(fixed, len)
        };
        assert(1 <= k && doc_amount(len, k));
        assert(shrink_amount(len, min, kind, fixed, fallback) == min_int(k, len - min));
    }
}

/// A vector shrunk while keeping at least `min` elements holds between `min`
/// and its old number of elements, is a prefix or a suffix of what it was,
/// and from four elements up has lost at least one whenever there was room.
pub proof fn lemma_shrink_result<T>(old: Seq<T>, new: Seq<T>, min: int, kind: int, fixed: int, fallback: int)
    requires
        0 <= min <= old.len(),
        0 <= kind < 5,
        1 <= fixed < 9,
        0 <= fallback <= old.len(),
        cut_at_an_end(old, new, shrink_amount(old.len() as int, min, kind, fixed, fallback)),
    ensures
        min <= new.len() <= old.len(),
        new == old.subrange(old.len() - new.len(), old.len() as int) || new == old.subrange(
            0,
            new.len() as int,
        ),
        old.len() >= 4 && old.len() > min ==> new.len() < old.len(),
{
    lemma_shrink_amount(old.len() as int, min, kind, fixed, fallback);
}

/// How many elements a grow may add: under a byte budget no more than the
/// elements of the largest default size that fit in it; under an element
/// limit no more than the room left below it; and without an element limit
/// no more than a documented amount (a quarter, half or three quarters of
/// the length, or a count from 1 to 8), exactly that amount when there is no
/// byte budget either.
pub proof fn lemma_grow_amount<T: SerializedSize>(
    len: int,
    kind: int,
    drawn: int,
    max_size: Option<usize>,
    max_elems: Option<usize>,
)
    requires
        len >= 0,
        grow_draw_in_range(len, kind, drawn, max_elems),
        max_size is Some ==> T::max_default_size() > 0,
    ensures
        max_size matches Some(ms) ==> grow_amount(len, kind, drawn, size_cap::<T>(max_size), max_elems)
            <= ms as int / T::max_default_size() as int,
        max_elems matches Some(me) ==> grow_amount(len, kind, drawn, size_cap::<T>(max_size), max_elems)
            <= me - len,
        max_elems is None ==> exists|k: int|
            #[trigger] doc_amount(len, k) && grow_amount(len, kind, drawn, size_cap::<T>(max_size), max_elems)
                <= k,
        max_elems is None && max_size is None ==> exists|k: int|
            #[trigger] doc_amount(len, k) && grow_amount(len, kind, drawn, size_cap::<T>(max_size), max_elems)
                == k && (len == 0 ==> 1 <= k),
{
    let base: int = if len == 0 {
        drawn
    } else if kind == 0 {
        len / 4
    } else if kind == 1 {
        len / 2
    } else if kind == 2 {
        len - len / 4
    } else {
        drawn
    };
    if max_elems is None {
        assert(doc_amount(len, base));
    }
}

/// A vector grown under an element limit and a byte budget: it keeps its
/// old elements at one end, ends within the element limit, adds no more
/// elements of the largest default size than fit in the budget nor more
/// bytes than the budget, and without an element limit adds no more than a
/// documented amount.
pub proof fn lemma_grow_result<T: NewFuzzed + SerializedSize>(
    old: Seq<T>,
    new: Seq<T>,
    added: Seq<T>,
    kind: int,
    drawn: int,
    max_size: Option<usize>,
    max_elems: Option<usize>,
)
    requires
        grow_draw_in_range(old.len() as int, kind, drawn, max_elems),
        max_size is Some ==> T::max_default_size() > 0,
        max_elems matches Some(me) ==> old.len() <= me,
        grown_as(
            old,
            new,
            added,
            grow_amount(old.len() as int, kind, drawn, size_cap::<T>(max_size), max_elems),
            max_size,
        ),
    ensures
        new == added + old || new == old + added,
        old.len() <= new.len(),
        max_elems matches Some(me) ==> new.len() <= me,
        max_size matches Some(ms) ==> new.len() - old.len() <= ms as int / T::max_default_size() as int
            && total_size(added) <= ms,
        max_elems is None ==> exists|k: int| #[trigger] doc_amount(old.len() as int, k) && new.len() - old.len() <= k,
{
    lemma_grow_amount::<T>(old.len() as int, kind, drawn, max_size, max_elems);
}

/// The sum of the serialized sizes of the elements of `s`.
pub open spec fn total_size<T: SerializedSize>(s: Seq<T>) -> nat
    decreases s.len(),
{
    if s.len() == 0 {
        0
    } else {
        total_size(s.drop_last()) + s.last().size_of()
    }
}

/// `new` is `old` with the elements `added` put in front of it or after it.
pub open spec fn grown_by<T>(old: Seq<T>, new: Seq<T>, added: Seq<T>) -> bool {
    new == added + old || new == old + added
}

/// A grow under the byte budget `max_size` that added `added` stopped
/// because the next element it created did not fit in what was left.
pub open spec fn stopped_at_budget<T: NewFuzzed + SerializedSize>(
    added: Seq<T>,
    max_size: Option<usize>,
) -> bool {
    max_size matches Some(ms) && exists|e: T| #[trigger] e.generable() && total_size(added) + e.size_of() > ms
}

/// Builds up to `count` new elements, stopping before the first one that
/// does not fit in what is left of the byte budget `max_size`.
fn new_elements<T: NewFuzzed + SerializedSize>(
    mutator: &mut Mutator,
    count: usize,
    max_size: Option<usize>,
) -> (added: Vec<T>)
    ensures
        old(mutator)@.within_budget() ==> final(mutator)@.within_budget(),
        final(mutator)@.field_count == old(mutator)@.field_count,
        added@.len() <= count,
        max_size is None ==> added@.len() == count,
        max_size matches Some(ms) ==> total_size(added@) <= ms,
        forall|i: int| 0 <= i < added@.len() ==> (#[trigger] added@[i]).generable(),
        added@.len() < count ==> stopped_at_budget(added@, max_size),
{
    let mut added: Vec<T> = Vec::new();
    let mut remaining = max_size;
    let mut i: usize = 0;
    while i < count
        invariant
            i <= count,
            added@.len() == i,
            old(mutator)@.within_budget() ==> mutator@.within_budget(),
            mutator@.field_count == old(mutator)@.field_count,
            max_size is None ==> remaining is None && added@.len() == i,
            forall|j: int| 0 <= j < added@.len() ==> (#[trigger] added@[j]).generable(),
            max_size matches Some(ms) ==> (remaining matches Some(r) && total_size(added@) + r
                == ms),
        ensures
            max_size is None ==> i == count,
            i < count ==> stopped_at_budget(added@, max_size),
        decreases count - i,
    {
        let constraints = match remaining {
            Some(budget) => {
                let mut c = Constraints::<T::RangeType>::new();
                c.max_size(budget);
                c.base_object_size_accounted_for = true;
                Some(c)
            },
            None => None,
        };
        let element = T::new_fuzzed(mutator, constraints.as_ref());
        if let Some(inner_max_size) = remaining {
            // if this element is larger than the size we're allotted,
            // then let's just exit
            let element_size = element.serialized_size();
            if element_size > inner_max_size {
                assert(stopped_at_budget(added@, max_size));
                break;
            }
            remaining = Some(inner_max_size - element_size);
        }
        let ghost before = added@;
        added.push(element);
        proof {
            assert(added@.drop_last() == before);
        }
        i = i + 1;
    }
    added
}

/// How many elements a grow of `len` elements adds at most: a quarter,
/// half or three quarters of `len` for those `kind`s of resize, else the
/// count `drawn` (also for an empty vector); cut down to what the byte
/// budget allows at the largest default element size (`size_cap`) and to
/// the room left below the element limit.
pub open spec fn grow_amount(
    len: int,
    kind: int,
    drawn: int,
    size_cap: Option<int>,
    max_elems: Option<usize>,
) -> int {
    let base = if len == 0 {
        drawn
    } else if kind == 0 {
        len / 4
    } else if kind == 1 {
        len / 2
    } else if kind == 2 {
        len - len / 4
    } else {
        drawn
    };
    let capped = match size_cap {
        Some(cap) => min_int(base, cap),
        None => base,
    };
    match max_elems {
        Some(me) => min_int(me - len, capped),
        None => capped,
    }
}

/// How many elements of the largest default size fit in the byte budget.
pub open spec fn size_cap<T: SerializedSize>(max_size: Option<usize>) -> Option<int> {
    match max_size {
        Some(ms) => Some(ms as int / T::max_default_size() as int),
        None => None,
    }
}

/// The count drawn by a grow is in range: from 1 below the element limit
/// (nine when there is none) for an empty vector or a fixed count (the
/// all-bytes kind draws the fixed count too).
pub open spec fn grow_draw_in_range(len: int, kind: int, drawn: int, max_elems: Option<usize>) -> bool {
    let resize_max = match max_elems {
        Some(me) => me as int,
        None => 9,
    };
    &&& 0 <= kind < 5
    &&& (len == 0 || kind >= 3) ==> 1 <= drawn < resize_max
}

/// The outcome of a grow: `added` put in front of or after `old`, as many
/// elements as the amount when there is no byte budget, else at most that
/// many and within the budget, fewer only where the next new element did
/// not fit; each one that `new_fuzzed` can create.
pub open spec fn grown_as<T: SerializedSize + NewFuzzed>(
    old: Seq<T>,
    new: Seq<T>,
    added: Seq<T>,
    amount: int,
    max_size: Option<usize>,
) -> bool {
    &&& grown_by(old, new, added)
    &&& added.len() <= amount
    &&& max_size is None ==> added.len() == amount
    &&& max_size matches Some(ms) ==> total_size(added) <= ms
    &&& added.len() < amount ==> stopped_at_budget(added, max_size)
    &&& forall|i: int| 0 <= i < added.len() ==> (#[trigger] added[i]).generable()
}

/// Grows a `Vec`.
/// This will randomly select to grow by a factor of 1/4, 1/2, 3/4, or a fixed number of bytes
/// in the range of [1, 8]. Elements may be added randomly to the beginning or end of the the vec.
/// The vector ends with at most `max_elems` elements, and the new elements
/// serialize to at most `max_size` bytes in all.
pub fn grow_vec<T: NewFuzzed + SerializedSize>(
    vec: &mut Vec<T>,
    mutator: &mut Mutator,
    max_elems: Option<usize>,
    max_size: Option<usize>,
)
    requires
        old(vec).len() < usize::MAX,
        max_elems matches Some(me) ==> 1 < me && old(vec).len() <= me,
        max_size is Some ==> T::max_default_size() > 0,
    ensures
        old(mutator)@.within_budget() ==> final(mutator)@.within_budget(),
        final(mutator)@.field_count == old(mutator)@.field_count,
        exists|kind: int, drawn: int, added: Seq<T>|
            grow_draw_in_range(old(vec).len() as int, kind, drawn, max_elems) && #[trigger] grown_as(
                old(vec)@,
                final(vec)@,
                added,
                grow_amount(
                    old(vec).len() as int,
                    kind,
                    drawn,
                    size_cap::<T>(max_size),
                    max_elems,
                ),
                max_size,
            ),
        max_elems matches Some(me) ==> final(vec).len() <= me,
        old(vec).len() <= final(vec).len(),
        max_size matches Some(ms) ==> final(vec).len() - old(vec).len() <= ms as int
            / T::max_default_size() as int,
        max_elems is None ==> exists|k: int|
            #[trigger] doc_amount(old(vec).len() as int, k) && final(vec).len() - old(vec).len() <= k,
        max_elems is None && max_size is None ==> (if old(vec).len() == 0 {
            1 <= final(vec).len() <= 8
        } else {
            doc_amount(old(vec).len() as int, final(vec).len() - old(vec).len())
        }),
{
    let len = vec.len();
    let resize_count = new_resize_count(mutator);
    let ghost kind = kind_of(resize_count);
    let ghost mut drawn: int = 1;
    let resize_max: u64 = match max_elems {
        Some(me) => me as u64,
        None => 9,
    };
    let mut num_elements = if len == 0 {
        let d = mutator.random_range(1, resize_max) as usize;
        proof {
            drawn = d as int;
        }
        d
    } else {
        match resize_count {
            VecResizeCount::Quarter => len / 4,
            VecResizeCount::Half => len / 2,
            VecResizeCount::ThreeQuarters => len - (len / 4),
            VecResizeCount::FixedBytes | VecResizeCount::AllBytes => {
                let d = mutator.random_range(1, resize_max) as usize;
                proof {
                    drawn = d as int;
                }
                d
            },
        }
    };
    assert(grow_draw_in_range(len as int, kind, drawn, max_elems));

    // If we were given a size constraint, we need to respect it
    if let Some(max_size) = max_size {
        num_elements = min_usize(num_elements, max_size / T::max_default_object_size());
    }
    if let Some(max_elems) = max_elems {
        num_elements = min_usize(max_elems - len, num_elements);
    }
    assert(num_elements == grow_amount(len as int, kind, drawn, size_cap::<T>(max_size), max_elems));
    proof {
        lemma_grow_amount::<T>(len as int, kind, drawn, max_size, max_elems);
    }

    if num_elements == 0 {
        assert(grown_by(old(vec)@, vec@, Seq::<T>::empty()));
        assert(total_size(Seq::<T>::empty()) == 0);
        assert(grown_as(old(vec)@, vec@, Seq::<T>::empty(), num_elements as int, max_size));
        return;
    }

    match new_resize_direction(mutator) {
        VecResizeDirection::FromBeginning => {
            // to avoid shifting the the entire vec on every iteration, we will
            // instead allocate a new vec, then extend it with the previous one
            let mut new_vec = new_elements::<T>(mutator, num_elements, max_size);
            let ghost added = new_vec@;
            new_vec.append(vec);
            *vec = new_vec;
            assert(grown_as(old(vec)@, vec@, added, num_elements as int, max_size));
        },
        VecResizeDirection::FromEnd => {
            let mut new_vec = new_elements::<T>(mutator, num_elements, max_size);
            let ghost added = new_vec@;
            vec.append(&mut new_vec);
            assert(grown_as(old(vec)@, vec@, added, num_elements as int, max_size));
        },
    }
}

/// `new` is `old` followed by one to fifteen new elements, each one that
/// `new_fuzzed` can create.
pub open spec fn appended_fresh<T: NewFuzzed>(old: Seq<T>, new: Seq<T>) -> bool {
    &&& old.len() + 1 <= new.len() <= old.len() + 15
    &&& new.subrange(0, old.len() as int) == old
    &&& forall|i: int| old.len() <= i < new.len() ==> (#[trigger] new[i]).generable()
}

/// `new` is `old` with a copy of its run `old[start..end]` inserted before
/// position `at`.
pub open spec fn duplicated_run<T: Clone>(
    old: Seq<T>,
    new: Seq<T>,
    start: int,
    end: int,
    at: int,
) -> bool {
    &&& 0 <= start < old.len()
    &&& start <= end <= old.len()
    &&& 0 <= at <= old.len()
    &&& new.len() == old.len() + (end - start)
    &&& new.subrange(0, at) == old.subrange(0, at)
    &&& new.subrange(at + (end - start), new.len() as int) == old.subrange(at, old.len() as int)
    &&& forall|k: int| 0 <= k < end - start ==> cloned::<T>(old[start + k], #[trigger] new[at + k])
}

/// `new` is `old` without its run `old[start..end]`.
pub open spec fn removed_run<T>(old: Seq<T>, new: Seq<T>, start: int, end: int) -> bool {
    0 <= start <= end <= old.len() && new == old.subrange(0, start) + old.subrange(
        end,
        old.len() as int,
    )
}

/// `new` is `old` without one to all of its first or of its last elements.
pub open spec fn end_removed<T>(old: Seq<T>, new: Seq<T>) -> bool {
    exists|n: int| 1 <= n <= old.len() && #[trigger] cut_at_an_end(old, new, n)
}

/// The growing half of `advanced_resize`: one to fifteen new elements
/// appended when `fresh` (or when the vector is empty), else a copy of one
/// of its runs inserted somewhere in it.
pub fn resize_grow<T: NewFuzzed + Clone>(vec: &mut Vec<T>, mutator: &mut Mutator, fresh: bool)
    requires
        old(vec).len() < usize::MAX,
    ensures
        old(mutator)@.within_budget() ==> final(mutator)@.within_budget(),
        final(mutator)@.field_count == old(mutator)@.field_count,
        fresh || old(vec).len() == 0 ==> appended_fresh(old(vec)@, final(vec)@),
        !fresh && old(vec).len() > 0 ==> exists|start: int, end: int, at: int|
            #[trigger] duplicated_run(old(vec)@, final(vec)@, start, end, at),
{
    let len = vec.len();
    if len == 0 || fresh {
        let grow_by = mutator.random_range(1, 16);
        let mut i: u64 = 0;
        while i < grow_by
            invariant
                i <= grow_by < 16,
                vec@.len() == len + i,
                vec@.subrange(0, len as int) == old(vec)@,
                forall|j: int| len <= j < vec@.len() ==> (#[trigger] vec@[j]).generable(),
                old(mutator)@.within_budget() ==> mutator@.within_budget(),
                mutator@.field_count == old(mutator)@.field_count,
            decreases grow_by - i,
        {
            let element = T::new_fuzzed(mutator, None);
            let ghost before = vec@;
            vec.push(element);
            assert(vec@.subrange(0, len as int) == before.subrange(0, len as int));
            i = i + 1;
        }
    } else {
        let start = mutator.random_range(0, len as u64) as usize;
        let end = mutator.random_range(start as u64, len as u64 + 1) as usize;
        let chunk = clone_range(vec, start, end);
        let insert_at = mutator.random_range(0, len as u64 + 1) as usize;
        let ghost c = chunk@;
        insert_all(vec, insert_at, chunk);
        proof {
            let o = old(vec)@;
            let n = vec@;
            assert(n.subrange(0, insert_at as int) =~= o.subrange(0, insert_at as int));
            assert(n.subrange(insert_at + (end - start), n.len() as int) =~= o.subrange(
                insert_at as int,
                o.len() as int,
            ));
            assert forall|k: int| 0 <= k < end - start implies cloned::<T>(
                o[start + k],
                #[trigger] n[insert_at + k],
            ) by {
                assert(n[insert_at + k] == c[k]);
            }
            assert(duplicated_run(o, n, start as int, end as int, insert_at as int));
        }
    }
}

/// The shrinking half of `advanced_resize` on a non-empty vector: a run of
/// it removed when `by_range`, else one to all of its elements removed from
/// one end.
pub fn resize_shrink<T>(vec: &mut Vec<T>, mutator: &mut Mutator, by_range: bool)
    requires
        0 < old(vec).len() < usize::MAX,
    ensures
        final(mutator)@ == old(mutator)@,
        by_range ==> exists|start: int, end: int| #[trigger] removed_run(old(vec)@, final(vec)@, start, end),
        !by_range ==> end_removed(old(vec)@, final(vec)@),
{
    let len = vec.len();
    if by_range {
        let start = mutator.random_range(0, len as u64) as usize;
        let end = mutator.random_range(start as u64, len as u64 + 1) as usize;
        drain_range(vec, start, end);
        assert(removed_run(old(vec)@, vec@, start as int, end as int));
    } else {
        let remove_count = mutator.random_range(1, len as u64 + 1) as usize;
        if mutator.gen_chance(1, 2) {
            drain_range(vec, 0, remove_count);
            assert(vec@ =~= old(vec)@.subrange(remove_count as int, len as int));
        } else {
            vec.truncate(len - remove_count);
            assert(vec@ =~= old(vec)@.subrange(0, len - remove_count));
        }
        assert(cut_at_an_end(old(vec)@, vec@, remove_count as int));
    }
}

/// Every outcome of `advanced_resize`.
pub open spec fn resized<T: Clone + NewFuzzed>(old: Seq<T>, new: Seq<T>) -> bool {
    ||| appended_fresh(old, new)
    ||| old.len() > 0 && exists|start: int, end: int, at: int|
        #[trigger] duplicated_run(old, new, start, end, at)
    ||| old.len() > 0 && exists|start: int, end: int| #[trigger] removed_run(old, new, start, end)
    ||| old.len() > 0 && end_removed(old, new)
}

/// Performs robust, structural resizing on character sequences.
/// Supports stochastic splicing, raw element injection, and multi-mode shrinkage.
/// An empty vector always grows; otherwise it grows or shrinks with even
/// chances, and each half picks its way with even chances.
pub fn advanced_resize<T: NewFuzzed + Clone>(vec: &mut Vec<T>, mutator: &mut Mutator)
    requires
        old(vec).len() < usize::MAX,
    ensures
        old(mutator)@.within_budget() ==> final(mutator)@.within_budget(),
        final(mutator)@.field_count == old(mutator)@.field_count,
        resized(old(vec)@, final(vec)@),
{
    let len = vec.len();
    if len == 0 || mutator.gen_chance(1, 2) {
        // Growing
        let fresh = len == 0 || mutator.gen_chance(1, 2);
        resize_grow(vec, mutator, fresh);
    } else {
        // Shrinking
        let by_range = mutator.gen_chance(1, 2);
        resize_shrink(vec, mutator, by_range);
    }
}

/// The outcome of mutating the elements of a sequence in place: the same
/// length, and at least one but fewer than all positions replaced by values
/// that `new_fuzzed` can create, the others kept.
pub open spec fn some_replaced<T: NewFuzzed>(old: Seq<T>, new: Seq<T>, idx: Seq<usize>) -> bool {
    &&& new.len() == old.len()
    &&& 1 <= idx.len() < old.len()
    &&& idx.no_duplicates()
    &&& forall|k: int| 0 <= k < idx.len() ==> #[trigger] idx[k] < old.len()
    &&& forall|j: int| 0 <= j < old.len() && !idx.contains(j as usize) ==> #[trigger] new[j] == old[j]
    &&& forall|k: int| 0 <= k < idx.len() ==> (#[trigger] new[idx[k] as int]).generable()
}

/// Every outcome of `mutate_char_vec`: resized, left alone when empty, or
/// some elements replaced.
pub open spec fn char_vec_outcome<T: Clone + NewFuzzed>(old: Seq<T>, new: Seq<T>) -> bool {
    ||| resized(old, new)
    ||| (old.len() == 0 && new == old)
    ||| exists|idx: Seq<usize>| #[trigger] some_replaced(old, new, idx)
}

/// Encapsulates entire character fuzzing process for structural string buffers:
/// rarely (1 in 100, or 33 in 100 when empty) the sequence is resized, else
/// some of its elements are replaced by new ones.
pub fn mutate_char_vec<T: NewFuzzed + Clone>(vec: &mut Vec<T>, mutator: &mut Mutator)
    requires
        old(vec).len() < usize::MAX,
        old(vec).len() != 1,
    ensures
        old(mutator)@.within_budget() ==> final(mutator)@.within_budget(),
        final(mutator)@.field_count == old(mutator)@.field_count,
        char_vec_outcome(old(vec)@, final(vec)@),
{
    let should_resize = if vec.len() == 0 {
        mutator.gen_chance(33, 100)
    } else {
        mutator.gen_chance(1, 100)
    };
    resize_or_replace(vec, mutator, should_resize);
}

/// What `mutate_char_vec` does once it has drawn whether to resize: resize
/// as `advanced_resize` does, else leave an empty sequence alone, else
/// replace at least one but fewer than all of its elements by new ones.
pub fn resize_or_replace<T: NewFuzzed + Clone>(vec: &mut Vec<T>, mutator: &mut Mutator, resize: bool)
    requires
        old(vec).len() < usize::MAX,
        resize || old(vec).len() != 1,
    ensures
        old(mutator)@.within_budget() ==> final(mutator)@.within_budget(),
        final(mutator)@.field_count == old(mutator)@.field_count,
        resize ==> resized(old(vec)@, final(vec)@),
        !resize && old(vec).len() == 0 ==> final(vec)@ == old(vec)@ && final(mutator)@ == old(
            mutator,
        )@,
        !resize && old(vec).len() > 0 ==> exists|idx: Seq<usize>|
            #[trigger] some_replaced(old(vec)@, final(vec)@, idx),
{
    if resize {
        advanced_resize(vec, mutator);
        return;
    }
    if vec.len() == 0 {
        return;
    }

    let len = vec.len();
    let num_mutations = mutator.random_range(1, len as u64) as usize;
    let indices = mutator.sample_indices(len, num_mutations);
    let mut i: usize = 0;
    while i < indices.len()
        invariant
            i <= indices.len() == num_mutations,
            1 <= num_mutations < len,
            indices@.no_duplicates(),
            forall|k: int| 0 <= k < indices@.len() ==> #[trigger] indices@[k] < len,
            vec@.len() == len,
            forall|j: int|
                0 <= j < len && !indices@.subrange(0, i as int).contains(j as usize) ==> #[trigger] vec@[j]
                    == old(vec)@[j],
            forall|k: int| 0 <= k < i ==> (#[trigger] vec@[indices@[k] as int]).generable(),
            old(mutator)@.within_budget() ==> mutator@.within_budget(),
            mutator@.field_count == old(mutator)@.field_count,
        decreases indices.len() - i,
    {
        let idx = indices[i];
        let element = T::new_fuzzed(mutator, None);
        vec.set(idx, element);
        proof {
            assert forall|j: int|
                0 <= j < len && !indices@.subrange(0, i + 1).contains(j as usize) implies #[trigger] vec@[j]
                == old(vec)@[j] by {
                assert(indices@.subrange(0, i + 1)[i as int] == idx);
                if indices@.subrange(0, i as int).contains(j as usize) {
                    let k = choose|k: int| 0 <= k < i && indices@.subrange(0, i as int)[k] == j as usize;
                    assert(indices@.subrange(0, i + 1)[k] == j as usize);
                }
            }
            assert forall|k: int| 0 <= k < i + 1 implies (#[trigger] vec@[indices@[k] as int]).generable() by {
                if k < i {
                    assert(indices@[k] != indices@[i as int]);
                }
            }
        }
        i = i + 1;
    }
    proof {
        assert(indices@.subrange(0, i as int) =~= indices@);
        assert(some_replaced(old(vec)@, vec@, indices@));
    }
}

} // verus!
