//! Order-preserving parallel map over an index range.
use vstd::prelude::*;
use rayon::iter::{IndexedParallelIterator, IntoParallelIterator, ParallelIterator};

verus! {

/// Relies on rayon's `(0..n).into_par_iter().map(f).collect_into_vec(..)`:
/// it calls `f` once for each index below `n`, and the indexed collect writes
/// the result for index `i` at position `i` of the cleared vector, whatever
/// the order in which the workers ran.
#[verifier::external_body]
pub(crate) fn par_map<U: Send, F: Fn(usize) -> U + Sync + Send>(n: usize, f: F) -> (r: Vec<U>)
    requires
        forall|i: usize| i < n ==> f.requires((i,)),
    ensures
        r@.len() == n,
        forall|i: int| 0 <= i < n ==> f.ensures((i as usize,), #[trigger] r@[i]),
{
    let mut r: Vec<U> = Vec::new();
    (0..n).into_par_iter().map(f).collect_into_vec(&mut r);
    r
}

} // verus!
