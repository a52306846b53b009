//! Overflow-aware summation of a set of `u32` values.

use vstd::prelude::*;

verus! {

/// The mathematical sum of all the values of `s`.
pub open spec fn total(s: Seq<u32>) -> int
    decreases s.len(),
{
    if s.len() == 0 {
        0
    } else {
        total(s.drop_last()) + s.last()
    }
}

/// A prefix never sums to more than the sequence it is taken from.
pub proof fn lemma_total_prefix_le(s: Seq<u32>, n: int)
    requires
        0 <= n <= s.len(),
    ensures
        0 <= total(s.take(n)) <= total(s),
    decreases s.len(),
{
    if n == s.len() {
        assert(s.take(n) =~= s);
        lemma_total_nonnegative(s);
    } else {
        lemma_total_prefix_le(s.drop_last(), n);
        assert(s.drop_last().take(n) =~= s.take(n));
    }
}

/// A sum of unsigned values is never negative.
pub proof fn lemma_total_nonnegative(s: Seq<u32>)
    ensures
        0 <= total(s),
    decreases s.len(),
{
    if s.len() > 0 {
        lemma_total_nonnegative(s.drop_last());
    }
}

/// Adds up `num_set`, giving `None` exactly when the sum does not fit in a
/// `u32`.
pub fn sum(num_set: &[u32]) -> (result: Option<u32>)
    ensures
        result == (if total(num_set@) <= u32::MAX {
            Some(total(num_set@) as u32)
        } else {
            None
        }),
{
    let mut acc: u32 = 0;
    let mut i: usize = 0;
    while i < num_set.len()
        invariant
            0 <= i <= num_set.len(),
            acc == total(num_set@.take(i as int)),
        decreases num_set.len() - i,
    {
        proof {
            assert(num_set@.take(i + 1).drop_last() =~= num_set@.take(i as int));
            lemma_total_prefix_le(num_set@, i + 1);
        }
        match acc.checked_add(num_set[i]) {
            Some(v) => {
                acc = v;
            },
            None => {
                return None;
            },
        }
        i += 1;
    }
    proof {
        assert(num_set@.take(i as int) =~= num_set@);
    }
    Some(acc)
}

} // verus!
