//! Element-wise arithmetic on numeric vectors, as the health job uses it.
use vstd::prelude::*;

verus! {

/// The sum of a sequence of numbers.
pub open spec fn sum_of(s: Seq<i32>) -> int
    decreases s.len(),
{
    if s.len() == 0 {
        0
    } else {
        sum_of(s.drop_last()) + s.last()
    }
}

/// Element-wise sum of two vectors, over the indices both have.
pub fn vec_add(a: &Vec<i32>, b: &Vec<i32>) -> (r: Vec<i32>)
    requires
        forall|i: int| 0 <= i < a@.len() && i < b@.len() ==> i32::MIN <= #[trigger] (a@[i]
            + b@[i]) <= i32::MAX,
    ensures
        r@.len() == (if a@.len() <= b@.len() { a@.len() } else { b@.len() }),
        forall|i: int| 0 <= i < r@.len() ==> r@[i] == a@[i] + b@[i],
{
    let n = if a.len() <= b.len() { a.len() } else { b.len() };
    let mut result: Vec<i32> = Vec::new();
    let mut i: usize = 0;
    #[verifier::loop_isolation(false)]
    while i < n
        invariant
            i <= n,
            result@.len() == i as int,
            forall|j: int| 0 <= j < i as int ==> result@[j] == a@[j] + b@[j],
        decreases n - i,
    {
        result.push(a[i] + b[i]);
        i += 1;
    }
    result
}

/// Element-wise difference of two vectors, over the indices both have.
pub fn vec_sub(a: &Vec<i32>, b: &Vec<i32>) -> (r: Vec<i32>)
    requires
        forall|i: int| 0 <= i < a@.len() && i < b@.len() ==> i32::MIN <= #[trigger] (a@[i]
            - b@[i]) <= i32::MAX,
    ensures
        r@.len() == (if a@.len() <= b@.len() { a@.len() } else { b@.len() }),
        forall|i: int| 0 <= i < r@.len() ==> r@[i] == a@[i] - b@[i],
{
    let n = if a.len() <= b.len() { a.len() } else { b.len() };
    let mut result: Vec<i32> = Vec::new();
    let mut i: usize = 0;
    #[verifier::loop_isolation(false)]
    while i < n
        invariant
            i <= n,
            result@.len() == i as int,
            forall|j: int| 0 <= j < i as int ==> result@[j] == a@[j] - b@[j],
        decreases n - i,
    {
        result.push(a[i] - b[i]);
        i += 1;
    }
    result
}

/// The sum of a vector's elements.
pub fn vec_sum(a: &Vec<i32>) -> (r: i32)
    requires
        forall|i: int| 0 <= i <= a@.len() ==> i32::MIN <= sum_of(#[trigger] a@.take(i))
            <= i32::MAX,
    ensures
        r == sum_of(a@),
{
    let mut result: i32 = 0;
    let mut i: usize = 0;
    proof {
        assert(a@.take(0) =~= Seq::<i32>::empty());
    }
    #[verifier::loop_isolation(false)]
    while i < a.len()
        invariant
            i <= a@.len(),
            result == sum_of(a@.take(i as int)),
        decreases a@.len() - i,
    {
        proof {
            assert(a@.take(i as int + 1).drop_last() =~= a@.take(i as int));
            assert(a@.take(i as int + 1).last() == a@[i as int]);
        }
        result = result + a[i];
        i += 1;
    }
    proof {
        assert(a@.take(a@.len() as int) =~= a@);
    }
    result
}

} // verus!
