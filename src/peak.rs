//! Locating the peak of a correlation response.
use vstd::prelude::*;

verus! {

/// `index` holds the largest key, and no key before it is as large.
pub open spec fn is_first_peak(keys: Seq<i32>, index: int) -> bool {
    &&& 0 <= index < keys.len()
    &&& forall|j: int| 0 <= j < keys.len() ==> keys[j] <= keys[index]
    &&& forall|j: int| 0 <= j < index ==> keys[j] < keys[index]
}

/// Index of the largest of `keys`; among equal maxima the first one wins.
/// The keys are the response samples in any order-preserving integer form.
pub fn peak_index(keys: &Vec<i32>) -> (r: usize)
    requires
        keys@.len() > 0,
    ensures
        is_first_peak(keys@, r as int),
{
    let mut best: usize = 0;
    let mut i: usize = 1;
    while i < keys.len()
        invariant
            0 <= best < i <= keys@.len(),
            forall|j: int| 0 <= j < i ==> keys@[j] <= keys@[best as int],
            forall|j: int| 0 <= j < best ==> keys@[j] < keys@[best as int],
        decreases keys@.len() - i,
    {
        if keys[i] > keys[best] {
            best = i;
        }
        i += 1;
    }
    best
}

} // verus!
