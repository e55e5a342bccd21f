//! Removing, inserting and copying runs of elements of a vector.
use vstd::prelude::*;

verus! {

/// Removes the elements at `start..end` (what `drain(start..end)` does).
pub fn drain_range<T>(v: &mut Vec<T>, start: usize, end: usize)
    requires
        start <= end <= old(v).len(),
    ensures
        final(v)@ == old(v)@.subrange(0, start as int) + old(v)@.subrange(
            end as int,
            old(v)@.len() as int,
        ),
{
    let mut tail = v.split_off(end);
    v.truncate(start);
    v.append(&mut tail);
}

/// Inserts all of `chunk` before position `at` (what `splice(at..at, chunk)`
/// does).
pub fn insert_all<T>(v: &mut Vec<T>, at: usize, chunk: Vec<T>)
    requires
        at <= old(v).len(),
    ensures
        final(v)@ == old(v)@.subrange(0, at as int) + chunk@ + old(v)@.subrange(
            at as int,
            old(v)@.len() as int,
        ),
{
    let mut chunk = chunk;
    let mut tail = v.split_off(at);
    v.append(&mut chunk);
    v.append(&mut tail);
}

/// Clones of the elements at `start..end`.
pub fn clone_range<T: Clone>(v: &Vec<T>, start: usize, end: usize) -> (r: Vec<T>)
    requires
        start <= end <= v.len(),
    ensures
        r@.len() == end - start,
        forall|k: int| 0 <= k < r@.len() ==> cloned::<T>(v@[start + k], #[trigger] r@[k]),
{
    let mut r: Vec<T> = Vec::new();
    let mut i = start;
    while i < end
        invariant
            start <= i <= end <= v.len(),
            r@.len() == i - start,
            forall|k: int| 0 <= k < r@.len() ==> cloned::<T>(v@[start + k], #[trigger] r@[k]),
        decreases end - i,
    {
        let c = v[i].clone();
        r.push(c);
        i = i + 1;
    }
    r
}

} // verus!
