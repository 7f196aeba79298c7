//! Reduction of the per-operation timing samples, in whole microseconds,
//! to the summary statistics one benchmark run reports.

use vstd::prelude::*;
use vstd::relations::{sorted_by, total_ordering};
use vstd::seq_lib::{lemma_sorted_unique, to_multiset_build, to_multiset_contains,
    to_multiset_insert, to_multiset_len};

verus! {

/// The order the samples are sorted by: ordinary `<=` on microseconds.
pub open spec fn leq() -> spec_fn(u128, u128) -> bool {
    |a: u128, b: u128| a <= b
}

/// `<=` on `u128` is a total ordering.
pub proof fn lemma_leq_total()
    ensures
        total_ordering(leq()),
{
}

/// The samples rearranged into ascending order.
pub open spec fn sorted_version(s: Seq<u128>) -> Seq<u128> {
    s.sort_by(leq())
}

/// The sum of a sequence of samples, as an unbounded integer.
pub open spec fn sum_of(s: Seq<u128>) -> int
    decreases s.len(),
{
    if s.len() == 0 {
        0
    } else {
        sum_of(s.drop_last()) + s.last()
    }
}

/// A prefix of a sequence never sums to more than the whole sequence.
proof fn lemma_sum_of_prefix(s: Seq<u128>, j: int)
    requires
        0 <= j <= s.len(),
    ensures
        sum_of(s.take(j)) <= sum_of(s),
    decreases s.len() - j,
{
    if j == s.len() {
        assert(s.take(j) =~= s);
    } else {
        lemma_sum_of_prefix(s, j + 1);
        assert(s.take(j + 1).drop_last() =~= s.take(j));
        assert(s.take(j + 1).last() == s[j]);
    }
}

/// The arithmetic mean of the samples, as the exact ratio
/// (sum of samples, number of samples), both in microseconds.
///
/// `None` exactly when there is no sample to average over, or when the sum
/// does not fit in a `u128`.
pub fn mean(nums: &Vec<u128>) -> (r: Option<(u128, usize)>)
    ensures
        r == (if nums@.len() == 0 || sum_of(nums@) > u128::MAX {
            None::<(u128, usize)>
        } else {
            Some((sum_of(nums@) as u128, nums@.len() as usize))
        }),
{
    let ghost s = nums@;
    let mut sum: u128 = 0;
    let mut i: usize = 0;
    while i < nums.len()
        invariant
            0 <= i <= s.len(),
            s == nums@,
            sum == sum_of(s.take(i as int)),
        decreases s.len() - i,
    {
        let v = nums[i];
        proof {
            assert(s.take(i + 1).drop_last() =~= s.take(i as int));
            assert(s.take(i + 1).last() == s[i as int]);
        }
        if v > u128::MAX - sum {
            proof {
                lemma_sum_of_prefix(s, i + 1);
            }
            return None;
        }
        sum = sum + v;
        i = i + 1;
    }
    proof {
        assert(s.take(s.len() as int) =~= s);
    }
    if nums.len() == 0 {
        None
    } else {
        Some((sum, nums.len()))
    }
}

/// Sorts the samples into ascending order (insertion sort).
pub fn sort_samples(nums: &Vec<u128>) -> (r: Vec<u128>)
    ensures
        r@ == sorted_version(nums@),
{
    let ghost s = nums@;
    let mut r: Vec<u128> = Vec::new();
    let mut i: usize = 0;
    proof {
        assert(s.take(0) =~= Seq::<u128>::empty());
    }
    while i < nums.len()
        invariant
            0 <= i <= s.len(),
            s == nums@,
            sorted_by(r@, leq()),
            r@.to_multiset() == s.take(i as int).to_multiset(),
        decreases s.len() - i,
    {
        let v = nums[i];
        let mut j: usize = 0;
        while j < r.len() && r[j] <= v
            invariant
                0 <= j <= r@.len(),
                forall|k: int| 0 <= k < j ==> r@[k] <= v,
            decreases r@.len() - j,
        {
            j = j + 1;
        }
        proof {
            let rold = r@;
            let t = rold.insert(j as int, v);
            assert forall|a: int, b: int| 0 <= a < b < t.len() implies leq()(t[a], t[b]) by {
                if b < j {
                    assert(leq()(rold[a], rold[b]));
                } else if b == j {
                    assert(t[b] == v);
                    assert(t[a] == rold[a]);
                } else if a == j {
                    assert(t[a] == v);
                    assert(t[b] == rold[b - 1]);
                    assert(rold[j as int] <= rold[b - 1]) by {
                        if j < b - 1 {
                            assert(leq()(rold[j as int], rold[b - 1]));
                        }
                    }
                } else if a < j {
                    assert(t[a] == rold[a]);
                    assert(t[b] == rold[b - 1]);
                    assert(rold[a] <= rold[b - 1]) by {
                        if a < b - 1 {
                            assert(leq()(rold[a], rold[b - 1]));
                        }
                    }
                } else {
                    assert(t[a] == rold[a - 1]);
                    assert(t[b] == rold[b - 1]);
                    assert(leq()(rold[a - 1], rold[b - 1]));
                }
            }
            assert(sorted_by(t, leq()));
            // The insertion adds exactly one copy of `v` to the contents.
            to_multiset_insert(rold, j as int, v);
            // One more element of the prefix is accounted for.
            assert(s.take(i + 1) =~= s.take(i as int).push(s[i as int]));
            to_multiset_build(s.take(i as int), s[i as int]);
        }
        r.insert(j, v);
        i = i + 1;
    }
    proof {
        assert(s.take(s.len() as int) =~= s);
        lemma_leq_total();
        s.lemma_sort_by_ensures(leq());
        lemma_sorted_unique(r@, sorted_version(s), leq());
    }
    r
}

/// The median of a non-empty sample sequence: the element at index
/// `len / 2` (rounding down) of the ascending rearrangement — for an even
/// length this is the upper of the two middle elements, never their average.
pub open spec fn median_of(s: Seq<u128>) -> u128
    recommends
        s.len() > 0,
{
    sorted_version(s)[(s.len() / 2) as int]
}

/// The median sample, or `None` when there is no sample.
pub fn median(nums: &Vec<u128>) -> (r: Option<u128>)
    ensures
        r == (if nums@.len() == 0 {
            None::<u128>
        } else {
            Some(median_of(nums@))
        }),
{
    if nums.len() == 0 {
        None
    } else {
        let sorted = sort_samples(nums);
        proof {
            lemma_leq_total();
            nums@.lemma_sort_by_ensures(leq());
            to_multiset_len(sorted@);
            to_multiset_len(nums@);
        }
        Some(sorted[nums.len() / 2])
    }
}

/// The largest of the samples.
pub open spec fn max_of(s: Seq<u128>) -> u128
    recommends
        s.len() > 0,
    decreases s.len(),
{
    if s.len() <= 1 {
        s[0]
    } else if s.last() >= max_of(s.drop_last()) {
        s.last()
    } else {
        max_of(s.drop_last())
    }
}

/// The smallest of the samples.
pub open spec fn min_of(s: Seq<u128>) -> u128
    recommends
        s.len() > 0,
    decreases s.len(),
{
    if s.len() <= 1 {
        s[0]
    } else if s.last() <= min_of(s.drop_last()) {
        s.last()
    } else {
        min_of(s.drop_last())
    }
}

/// The maximum of a non-empty sequence is one of its elements and bounds
/// them all from above.
pub proof fn lemma_max_of_bounds(s: Seq<u128>)
    requires
        s.len() > 0,
    ensures
        s.contains(max_of(s)),
        forall|i: int| 0 <= i < s.len() ==> s[i] <= max_of(s),
    decreases s.len(),
{
    if s.len() == 1 {
        assert(s.contains(max_of(s))) by {
            assert(s[0] == max_of(s));
        }
    } else {
        lemma_max_of_bounds(s.drop_last());
        let d = s.drop_last();
        assert(s.contains(max_of(s))) by {
            if s.last() >= max_of(d) {
                assert(s[s.len() - 1] == max_of(s));
            } else {
                let k = choose|k: int| 0 <= k < d.len() && d[k] == max_of(d);
                assert(s[k] == max_of(s));
            }
        }
        assert forall|i: int| 0 <= i < s.len() implies s[i] <= max_of(s) by {
            if i < s.len() - 1 {
                assert(d[i] <= max_of(d));
            }
        }
    }
}

/// The minimum of a non-empty sequence is one of its elements and bounds
/// them all from below.
pub proof fn lemma_min_of_bounds(s: Seq<u128>)
    requires
        s.len() > 0,
    ensures
        s.contains(min_of(s)),
        forall|i: int| 0 <= i < s.len() ==> min_of(s) <= s[i],
    decreases s.len(),
{
    if s.len() == 1 {
        assert(s.contains(min_of(s))) by {
            assert(s[0] == min_of(s));
        }
    } else {
        lemma_min_of_bounds(s.drop_last());
        let d = s.drop_last();
        assert(s.contains(min_of(s))) by {
            if s.last() <= min_of(d) {
                assert(s[s.len() - 1] == min_of(s));
            } else {
                let k = choose|k: int| 0 <= k < d.len() && d[k] == min_of(d);
                assert(s[k] == min_of(s));
            }
        }
        assert forall|i: int| 0 <= i < s.len() implies min_of(s) <= s[i] by {
            if i < s.len() - 1 {
                assert(min_of(d) <= d[i]);
            }
        }
    }
}

/// For any non-empty sample sequence the reported statistics are ordered:
/// the minimum is at most the median, and the median is at most the maximum.
pub proof fn lemma_stats_ordered(s: Seq<u128>)
    requires
        s.len() > 0,
    ensures
        min_of(s) <= median_of(s),
        median_of(s) <= max_of(s),
{
    lemma_leq_total();
    s.lemma_sort_by_ensures(leq());
    let t = sorted_version(s);
    to_multiset_len(t);
    to_multiset_len(s);
    let m = t[(s.len() / 2) as int];
    assert(t.contains(m));
    to_multiset_contains(t, m);
    to_multiset_contains(s, m);
    assert(s.contains(m));
    lemma_max_of_bounds(s);
    lemma_min_of_bounds(s);
    let i = choose|i: int| 0 <= i < s.len() && s[i] == m;
    assert(s[i] <= max_of(s));
    assert(min_of(s) <= s[i]);
}

/// The reduced statistics of one benchmark run. All values are whole
/// microseconds. A `None` stands for a statistic with no defined value:
/// the run collected no sample (or, for the mean, the sample sum exceeded
/// the `u128` range).
pub struct Summary {
    /// Wall-clock time of the whole run, measured independently of the
    /// per-operation samples.
    pub total_micros: u128,
    /// The largest single sample.
    pub max_micros: Option<u128>,
    /// The median sample, with the `len / 2` index tie-break of `median_of`.
    pub median_micros: Option<u128>,
    /// The arithmetic mean of the samples as the exact ratio
    /// (sum of samples, number of samples).
    pub mean_micros: Option<(u128, usize)>,
}

/// What `summarize` reports for a given sample sequence and total time.
pub open spec fn summary_of(samples: Seq<u128>, total_micros: u128) -> Summary {
    Summary {
        total_micros: total_micros,
        max_micros: if samples.len() == 0 {
            None
        } else {
            Some(max_of(samples))
        },
        median_micros: if samples.len() == 0 {
            None
        } else {
            Some(median_of(samples))
        },
        mean_micros: if samples.len() == 0 || sum_of(samples) > u128::MAX {
            None
        } else {
            Some((sum_of(samples) as u128, samples.len() as usize))
        },
    }
}

/// Reduces the samples of one run to the statistics the report prints.
pub fn summarize(samples: &Vec<u128>, total_micros: u128) -> (r: Summary)
    ensures
        r == summary_of(samples@, total_micros),
{
    Summary {
        total_micros: total_micros,
        max_micros: max_sample(samples),
        median_micros: median(samples),
        mean_micros: mean(samples),
    }
}

/// The largest sample, or `None` when there is no sample.
pub fn max_sample(nums: &Vec<u128>) -> (r: Option<u128>)
    ensures
        r == (if nums@.len() == 0 {
            None::<u128>
        } else {
            Some(max_of(nums@))
        }),
{
    if nums.len() == 0 {
        return None;
    }
    let ghost s = nums@;
    let mut best = nums[0];
    let mut i: usize = 1;
    proof {
        assert(s.take(1)[0] == s[0]);
    }
    while i < nums.len()
        invariant
            1 <= i <= s.len(),
            s == nums@,
            best == max_of(s.take(i as int)),
        decreases s.len() - i,
    {
        let v = nums[i];
        proof {
            assert(s.take(i + 1).drop_last() =~= s.take(i as int));
            assert(s.take(i + 1).last() == s[i as int]);
        }
        if v > best {
            best = v;
        }
        i = i + 1;
    }
    proof {
        assert(s.take(s.len() as int) =~= s);
    }
    Some(best)
}

} // verus!
