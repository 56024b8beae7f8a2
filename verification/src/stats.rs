//! Summary statistics over a vector of signed integers: sorting, the exact
//! sum (the numerator of the arithmetic mean), the upper-middle median, and
//! the mode with a smallest-value tie-break.

use vstd::prelude::*;

verus! {

/// A sequence of integers is sorted in ascending order.
pub open spec fn sorted(s: Seq<i32>) -> bool {
    forall|i: int, j: int| 0 <= i <= j < s.len() ==> s[i] <= s[j]
}

/// Number of occurrences of `x` in `s`.
pub open spec fn count_of(s: Seq<i32>, x: i32) -> nat {
    s.to_multiset().count(x)
}

/// Sum of the elements of `s`, as a mathematical integer.
pub open spec fn seq_sum(s: Seq<i32>) -> int
    decreases s.len(),
{
    if s.len() == 0 {
        0
    } else {
        seq_sum(s.drop_last()) + s.last()
    }
}

/// Every element of `s` lies between `i32::MIN` and `i32::MAX`, so the
/// sum lies between `len * i32::MIN` and `len * i32::MAX`.
proof fn lemma_seq_sum_bounds(s: Seq<i32>)
    ensures
        s.len() * (i32::MIN as int) <= seq_sum(s) <= s.len() * (i32::MAX as int),
    decreases s.len(),
{
    if s.len() > 0 {
        lemma_seq_sum_bounds(s.drop_last());
    }
}

/// Sorts the vector ascending by insertion sort, swapping adjacent
/// elements, so that the final vector is a permutation of the input.
pub fn sort_ints(v: &mut Vec<i32>)
    ensures
        sorted(final(v)@),
        final(v)@.to_multiset() == old(v)@.to_multiset(),
        final(v)@.len() == old(v)@.len(),
{
    broadcast use vstd::seq_lib::group_to_multiset_ensures;

    let n = v.len();
    if n < 2 {
        return;
    }
    let mut i: usize = 1;
    while i < n
        invariant
            1 <= i <= n,
            n == v@.len(),
            v@.to_multiset() == old(v)@.to_multiset(),
            forall|p: int, q: int| 0 <= p <= q < i ==> v@[p] <= v@[q],
        decreases n - i,
    {
        let mut j: usize = i;
        while j > 0 && v[j - 1] > v[j]
            invariant
                j <= i < n,
                n == v@.len(),
                v@.to_multiset() == old(v)@.to_multiset(),
                forall|p: int, q: int| 0 <= p <= q <= i && q != j ==> v@[p] <= v@[q],
            decreases j,
        {
            broadcast use vstd::seq_lib::group_to_multiset_ensures;

            let ghost before = v@;
            let a = v[j - 1];
            let b = v[j];
            v.set(j - 1, b);
            v.set(j, a);
            proof {
                assert(v@.to_multiset() =~= before.to_multiset());
            }
            j = j - 1;
        }
        i = i + 1;
    }
}

/// The exact sum of the elements, accumulated in a 64-bit integer. The
/// length bound keeps the running sum inside the `i64` range.
pub fn sum_of(v: &Vec<i32>) -> (s: i64)
    requires
        v@.len() <= 0x1_0000_0000,
    ensures
        s as int == seq_sum(v@),
{
    let mut total: i64 = 0;
    let mut i: usize = 0;
    while i < v.len()
        invariant
            i <= v@.len() <= 0x1_0000_0000,
            total as int == seq_sum(v@.take(i as int)),
        decreases v@.len() - i,
    {
        proof {
            assert(v@.take(i + 1).drop_last() =~= v@.take(i as int));
            lemma_seq_sum_bounds(v@.take(i + 1));
        }
        total = total + v[i] as i64;
        i = i + 1;
    }
    proof {
        assert(v@.take(v@.len() as int) =~= v@);
    }
    total
}

/// Counts how many elements of the vector equal `x`.
pub fn count_occurrences(v: &Vec<i32>, x: i32) -> (c: usize)
    ensures
        c == count_of(v@, x),
{
    broadcast use vstd::seq_lib::group_to_multiset_ensures;

    let mut c: usize = 0;
    let mut i: usize = 0;
    while i < v.len()
        invariant
            i <= v@.len(),
            c <= i,
            c == count_of(v@.take(i as int), x),
        decreases v@.len() - i,
    {
        proof {
            broadcast use vstd::seq_lib::group_to_multiset_ensures;

            assert(v@.take(i + 1) =~= v@.take(i as int).push(v@[i as int]));
        }
        if v[i] == x {
            c = c + 1;
        }
        i = i + 1;
    }
    proof {
        assert(v@.take(v@.len() as int) =~= v@);
    }
    c
}

/// The mode of a sorted, non-empty vector: a value that occurs at least
/// as often as every other value. Ties are broken explicitly in favour
/// of the smallest such value, which the ascending scan below yields by
/// keeping the first value whose count is strictly greater than the
/// best seen so far.
pub fn mode_of_sorted(v: &Vec<i32>) -> (m: i32)
    requires
        v@.len() > 0,
        sorted(v@),
    ensures
        v@.contains(m),
        forall|x: i32| count_of(v@, x) <= count_of(v@, m),
        forall|x: i32| v@.contains(x) && count_of(v@, x) == count_of(v@, m) ==> m <= x,
{
    let mut best = v[0];
    let mut best_cnt = count_occurrences(v, best);
    let ghost mut best_idx: int = 0;
    let mut i: usize = 1;
    while i < v.len()
        invariant
            1 <= i <= v@.len(),
            sorted(v@),
            0 <= best_idx < i,
            v@[best_idx] == best,
            best_cnt == count_of(v@, best),
            forall|j: int| 0 <= j < i ==> count_of(v@, v@[j]) <= best_cnt,
            forall|j: int|
                0 <= j < i && count_of(v@, v@[j]) == best_cnt ==> best <= v@[j],
        decreases v@.len() - i,
    {
        let cnt = count_occurrences(v, v[i]);
        if cnt > best_cnt {
            best = v[i];
            best_cnt = cnt;
            proof {
                best_idx = i as int;
            }
        }
        i = i + 1;
    }
    proof {
        broadcast use vstd::seq_lib::group_to_multiset_ensures;

        assert forall|x: i32| count_of(v@, x) <= count_of(v@, best) by {
            if count_of(v@, x) > 0 {
                assert(v@.contains(x));
                let j = choose|j: int| 0 <= j < v@.len() && v@[j] == x;
                assert(count_of(v@, v@[j]) <= best_cnt);
            }
        }
        assert forall|x: i32|
            v@.contains(x) && count_of(v@, x) == count_of(v@, best) implies best <= x by {
            let j = choose|j: int| 0 <= j < v@.len() && v@[j] == x;
            assert(count_of(v@, v@[j]) == best_cnt);
        }
    }
    best
}

/// The element at the upper-middle index of a sorted sequence: for an
/// odd length the middle element, for an even length the upper of the
/// two middle elements.
pub fn median_of_sorted(v: &Vec<i32>) -> (m: i32)
    requires
        v@.len() > 0,
    ensures
        m == v@[v@.len() as int / 2],
{
    v[v.len() / 2]
}

/// The three summary statistics of one vector. The mean is reported as
/// its exact integer numerator (the sum of the elements); the caller
/// divides by the length in whatever numeric domain it prints in.
#[derive(Clone, Copy, Debug, PartialEq, Eq, Structural)]
pub struct Stats {
    /// Exact sum of the elements, the numerator of the mean.
    pub sum: i64,
    /// The element at index `len / 2` of the sorted vector.
    pub median: i32,
    /// A most frequent value; ties go to the smallest such value.
    pub mode: i32,
}

/// Why a vector has no summary statistics.
#[derive(Clone, Copy, Debug, PartialEq, Eq, Structural)]
pub enum StatsError {
    /// The vector is empty: the mean would divide by zero, and there is
    /// no median or mode to pick.
    EmptyInput,
}

/// Sorts the vector ascending and computes its summary statistics: the
/// exact sum, the upper-middle median, and the smallest most frequent
/// value. An empty vector is rejected with `EmptyInput` and left
/// untouched.
pub fn analyze(v: &mut Vec<i32>) -> (r: Result<Stats, StatsError>)
    requires
        old(v)@.len() <= 0x1_0000_0000,
    ensures
        final(v)@.to_multiset() == old(v)@.to_multiset(),
        final(v)@.len() == old(v)@.len(),
        r is Err <==> old(v)@.len() == 0,
        r is Err ==> r == Result::<Stats, StatsError>::Err(StatsError::EmptyInput)
            && final(v)@ == old(v)@,
        r is Ok ==> sorted(final(v)@),
        r is Ok ==> ({
            let st = r->Ok_0;
            &&& st.sum as int == seq_sum(old(v)@)
            &&& st.median == final(v)@[final(v)@.len() as int / 2]
            &&& old(v)@.contains(st.mode)
            &&& forall|x: i32| #[trigger] count_of(old(v)@, x) <= count_of(old(v)@, st.mode)
            &&& forall|x: i32|
                old(v)@.contains(x) && #[trigger] count_of(old(v)@, x) == count_of(
                    old(v)@,
                    st.mode,
                ) ==> st.mode <= x
        }),
{
    broadcast use vstd::seq_lib::group_to_multiset_ensures;

    if v.len() == 0 {
        return Err(StatsError::EmptyInput);
    }
    let sum = sum_of(v);
    sort_ints(v);
    let median = median_of_sorted(v);
    let mode = mode_of_sorted(v);
    proof {
        assert(old(v)@.contains(mode)) by {
            assert(count_of(v@, mode) > 0);
            assert(old(v)@.to_multiset().count(mode) > 0);
        }
        assert forall|x: i32| #[trigger] count_of(old(v)@, x) <= count_of(old(v)@, mode) by {
            assert(count_of(v@, x) <= count_of(v@, mode));
        }
        assert forall|x: i32|
            old(v)@.contains(x) && #[trigger] count_of(old(v)@, x) == count_of(
                old(v)@,
                mode,
            ) implies mode <= x by {
            assert(old(v)@.to_multiset().count(x) > 0);
            assert(v@.contains(x));
            assert(count_of(v@, x) == count_of(v@, mode));
        }
    }
    Ok(Stats { sum, median, mode })
}

} // verus!
