//! Buffer helpers consumed by higher layers.

use vstd::prelude::*;

verus! {

/// Builds a vector of `capacity` copies of `value`, truncated to
/// `length` elements; the result holds `min(length, capacity)` copies
/// of `value`.
pub fn filled_vec<T: Copy>(length: usize, capacity: usize, value: T) -> (v: Vec<T>)
    ensures
        v@.len() == if length <= capacity { length as int } else { capacity as int },
        forall|i: int| 0 <= i < v@.len() ==> v@[i] == value,
{
    let mut vector: Vec<T> = Vec::new();
    let mut i: usize = 0;
    while i < capacity
        invariant
            i <= capacity,
            vector@.len() == i as int,
            forall|j: int| 0 <= j < vector@.len() ==> vector@[j] == value,
        decreases capacity - i,
    {
        vector.push(value);
        i = i + 1;
    }
    vector.truncate(length);
    vector
}

} // verus!
