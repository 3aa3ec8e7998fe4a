use vstd::prelude::*;

use crate::value::Value;
use crate::value::val_eq;
use crate::value::value_eq;

verus! {

/// The values of column `c`, in row order.
pub open spec fn col_vals(rows: Seq<Vec<Value>>, c: usize) -> Seq<Value> {
    Seq::new(rows.len(), |i: int| rows[i]@[c as int])
}

/// No earlier value equals (null-aware) the value at position `i`.
pub open spec fn is_first_occurrence(vals: Seq<Value>, i: int) -> bool {
    forall|j: int| 0 <= j < i ==> !val_eq(vals[j], vals[i])
}

/// How many of the first `n` values are first occurrences.
pub open spec fn distinct_upto(vals: Seq<Value>, n: int) -> nat
    decreases n,
{
    if n <= 0 {
        0
    } else {
        distinct_upto(vals, n - 1) + if is_first_occurrence(vals, n - 1) {
            1nat
        } else {
            0nat
        }
    }
}

/// Number of distinct (null-aware) values in the sequence.
pub open spec fn distinct_count(vals: Seq<Value>) -> nat {
    distinct_upto(vals, vals.len() as int)
}

pub proof fn lemma_distinct_upto_le(vals: Seq<Value>, n: int)
    requires
        0 <= n,
    ensures
        distinct_upto(vals, n) <= n,
    decreases n,
{
    if n > 0 {
        lemma_distinct_upto_le(vals, n - 1);
    }
}

/// Counts the distinct values of column `c`: the uniqueness probe of the
/// join-key guard.
#[verifier::loop_isolation(false)]
pub fn count_distinct(rows: &Vec<Vec<Value>>, c: usize) -> (r: usize)
    requires
        forall|i: int| 0 <= i < rows@.len() ==> c < rows@[i]@.len(),
    ensures
        r == distinct_count(col_vals(rows@, c)),
        r <= rows@.len(),
{
    let ghost vals = col_vals(rows@, c);
    let mut count: usize = 0;
    let mut i: usize = 0;
    while i < rows.len()
        invariant
            0 <= i <= rows@.len(),
            count == distinct_upto(vals, i as int),
            count <= i,
        decreases rows@.len() - i,
    {
        let mut dup = false;
        let mut j: usize = 0;
        while j < i
            invariant
                0 <= j <= i,
                dup == exists|q: int| 0 <= q < j && val_eq(vals[q], vals[i as int]),
            decreases i - j,
        {
            if value_eq(&rows[j][c], &rows[i][c]) {
                proof {
                    assert(val_eq(vals[j as int], vals[i as int]));
                }
                dup = true;
            }
            j += 1;
        }
        if !dup {
            count += 1;
        }
        i += 1;
    }
    count
}

} // verus!
