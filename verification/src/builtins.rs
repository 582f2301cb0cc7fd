//! The arithmetic plugin bodies.
//!
//! The example plugins compute over a list of numbers. Their computations
//! are plain folds, stated here exactly: `sum` folds addition over the
//! list, and `mul` folds multiplication — seeded with zero, so its result
//! is always zero, which its contract states openly.

use vstd::prelude::*;

verus! {

/// The sum of the numbers.
pub open spec fn sum_spec(s: Seq<u64>) -> int
    decreases s.len(),
{
    if s.len() == 0 {
        0
    } else {
        sum_spec(s.drop_last()) + s.last()
    }
}

/// The fold of multiplication seeded with zero.
pub open spec fn mul_fold_spec(s: Seq<u64>) -> int
    decreases s.len(),
{
    if s.len() == 0 {
        0
    } else {
        mul_fold_spec(s.drop_last()) * s.last()
    }
}

/// A prefix of non-negative summands never exceeds the whole sum.
proof fn lemma_sum_prefix_le(s: Seq<u64>, i: int)
    requires
        0 <= i <= s.len(),
    ensures
        sum_spec(s.take(i)) <= sum_spec(s),
    decreases s.len() - i,
{
    if i < s.len() {
        lemma_sum_prefix_le(s, i + 1);
        assert(s.take(i + 1).drop_last() =~= s.take(i));
        assert(s.take(i + 1).last() == s[i]);
    } else {
        assert(s.take(i) =~= s);
    }
}

/// Fold addition over the numbers.
pub fn sum(data: Vec<u64>) -> (r: u64)
    requires
        sum_spec(data@) <= u64::MAX,
    ensures
        r == sum_spec(data@),
{
    let mut acc: u64 = 0;
    let n = data.len();
    for i in 0..n
        invariant
            n == data@.len(),
            acc == sum_spec(data@.take(i as int)),
            sum_spec(data@) <= u64::MAX,
    {
        proof {
            assert(data@.take(i + 1).drop_last() =~= data@.take(i as int));
            assert(data@.take(i + 1).last() == data@[i as int]);
            lemma_sum_prefix_le(data@, i + 1);
        }
        acc = acc + data[i];
    }
    proof {
        assert(data@.take(n as int) =~= data@);
    }
    acc
}

/// Fold multiplication, seeded with zero, over the numbers. The zero
/// seed makes every product zero; the fold is stated as it is computed.
pub fn mul(data: Vec<u64>) -> (r: u64)
    ensures
        r == mul_fold_spec(data@),
        r == 0,
{
    let mut acc: u64 = 0;
    let n = data.len();
    for i in 0..n
        invariant
            n == data@.len(),
            acc == mul_fold_spec(data@.take(i as int)),
            acc == 0,
    {
        proof {
            assert(data@.take(i + 1).drop_last() =~= data@.take(i as int));
            assert(data@.take(i + 1).last() == data@[i as int]);
        }
        acc = acc * data[i];
    }
    proof {
        assert(data@.take(n as int) =~= data@);
    }
    acc
}

} // verus!
