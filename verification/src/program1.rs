//! The sample firmware functions whose entry points the analysis finds in
//! the `program1` image: each fills a fixed-size array with a linear
//! sequence of integers.
use vstd::prelude::*;

verus! {

/// Returns `[0, 1, 2, ..., 9]`.
pub fn function1() -> (v: [i32; 10])
    ensures
        forall|k: int| 0 <= k < 10 ==> #[trigger] v@[k] == k,
{
    let mut v: [i32; 10] = [0; 10];
    for i in 0..10
        invariant
            v@.len() == 10,
            forall|k: int| 0 <= k < i ==> #[trigger] v@[k] == k,
    {
        v[i] = i as i32;
    }
    v
}

/// Returns `[0, 2, 4, ..., 198]`.
pub fn function2() -> (v: [i32; 100])
    ensures
        forall|k: int| 0 <= k < 100 ==> #[trigger] v@[k] == 2 * k,
{
    let mut v: [i32; 100] = [0; 100];
    for i in 0..100
        invariant
            v@.len() == 100,
            forall|k: int| 0 <= k < i ==> #[trigger] v@[k] == 2 * k,
    {
        v[i] = (i as i32) * 2;
    }
    v
}

/// Returns `[0, 1, 2, ..., 499]`.
pub fn function3() -> (v: [i32; 500])
    ensures
        forall|k: int| 0 <= k < 500 ==> #[trigger] v@[k] == k,
{
    let mut v: [i32; 500] = [0; 500];
    for i in 0..500
        invariant
            v@.len() == 500,
            forall|k: int| 0 <= k < i ==> #[trigger] v@[k] == k,
    {
        v[i] = i as i32;
    }
    v
}

/// Returns `[0, 4, 8, ..., 36]`.
pub fn function4() -> (v: [i32; 10])
    ensures
        forall|k: int| 0 <= k < 10 ==> #[trigger] v@[k] == 4 * k,
{
    let mut v: [i32; 10] = [0; 10];
    for i in 0..10
        invariant
            v@.len() == 10,
            forall|k: int| 0 <= k < i ==> #[trigger] v@[k] == 4 * k,
    {
        v[i] = (i as i32) * 4;
    }
    v
}

} // verus!
