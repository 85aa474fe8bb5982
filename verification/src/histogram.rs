use vstd::prelude::*;

use crate::volume::Volume;

verus! {

/// How many entries of `s` equal `v`.
pub open spec fn count_byte(s: Seq<u8>, v: u8) -> nat
    decreases s.len(),
{
    if s.len() == 0 {
        0
    } else {
        count_byte(s.drop_last(), v) + (if s.last() == v {
            1nat
        } else {
            0nat
        })
    }
}

/// Sum of the first `n` histogram bins.
pub open spec fn sum_bins(h: Seq<u64>, n: int) -> int
    decreases n,
{
    if n <= 0 {
        0
    } else {
        sum_bins(h, n - 1) + h[n - 1]
    }
}

/// Sum of all bins of a 256-bin histogram.
pub open spec fn histogram_total(h: Seq<u64>) -> int {
    sum_bins(h, 256)
}

/// Sum over the byte values below `n` of their occurrence counts in `s`.
spec fn sum_counts(s: Seq<u8>, n: int) -> int
    decreases n,
{
    if n <= 0 {
        0
    } else {
        sum_counts(s, n - 1) + count_byte(s, (n - 1) as u8)
    }
}

/// No byte occurs more often than the sequence is long.
proof fn lemma_count_byte_le_len(s: Seq<u8>, v: u8)
    ensures
        count_byte(s, v) <= s.len(),
    decreases s.len(),
{
    if s.len() > 0 {
        lemma_count_byte_le_len(s.drop_last(), v);
    }
}

/// Extending the counted prefix by one element raises exactly the count of
/// that element.
proof fn lemma_count_byte_take_step(s: Seq<u8>, i: int, v: u8)
    requires
        0 <= i < s.len(),
    ensures
        count_byte(s.take(i + 1), v) == count_byte(s.take(i), v) + (if s[i] == v {
            1int
        } else {
            0int
        }),
{
    assert(s.take(i + 1).drop_last() =~= s.take(i));
    assert(s.take(i + 1).last() == s[i]);
}

/// Counting distributes over concatenation: the histogram of stacked
/// data is the bin-wise sum of the parts' histograms, so partial
/// histograms of a split workload merge by addition, in any split.
pub proof fn lemma_count_byte_concat(a: Seq<u8>, b: Seq<u8>, v: u8)
    ensures
        count_byte(a + b, v) == count_byte(a, v) + count_byte(b, v),
    decreases b.len(),
{
    if b.len() == 0 {
        assert(a + b =~= a);
    } else {
        assert((a + b).drop_last() =~= a + b.drop_last());
        assert((a + b).last() == b.last());
        lemma_count_byte_concat(a, b.drop_last(), v);
    }
}

/// An empty sequence contributes nothing to any partial sum of counts.
proof fn lemma_sum_counts_empty(s: Seq<u8>, n: int)
    requires
        s.len() == 0,
    ensures
        sum_counts(s, n) == 0,
    decreases n,
{
    if n > 0 {
        lemma_sum_counts_empty(s, n - 1);
    }
}

/// Dropping the last element lowers the summed counts by one exactly when
/// that element's value lies below `n`.
proof fn lemma_sum_counts_drop(s: Seq<u8>, n: int)
    requires
        s.len() > 0,
        0 <= n <= 256,
    ensures
        sum_counts(s, n) == sum_counts(s.drop_last(), n) + (if (s.last() as int) < n {
            1int
        } else {
            0int
        }),
    decreases n,
{
    if n > 0 {
        lemma_sum_counts_drop(s, n - 1);
    }
}

/// Every byte falls in exactly one of the 256 bins, so the counts of all
/// 256 values sum to the length.
proof fn lemma_sum_counts_all(s: Seq<u8>)
    ensures
        sum_counts(s, 256) == s.len(),
    decreases s.len(),
{
    if s.len() == 0 {
        lemma_sum_counts_empty(s, 256);
    } else {
        lemma_sum_counts_all(s.drop_last());
        lemma_sum_counts_drop(s, 256);
    }
}

/// A partial histogram sum equals the corresponding partial sum of counts
/// when the bins agree with the counts pointwise.
proof fn lemma_sum_bins_counts(h: Seq<u64>, s: Seq<u8>, n: int)
    requires
        0 <= n <= 256,
        forall|v: int| 0 <= v < n ==> h[v] == count_byte(s, v as u8),
    ensures
        sum_bins(h, n) == sum_counts(s, n),
    decreases n,
{
    if n > 0 {
        lemma_sum_bins_counts(h, s, n - 1);
    }
}

/// A histogram whose bins are the occurrence counts of a byte sequence
/// sums to that sequence's length.
pub proof fn lemma_histogram_sum(h: Seq<u64>, data: Seq<u8>)
    requires
        h.len() == 256,
        forall|v: int| 0 <= v < 256 ==> h[v] == count_byte(data, v as u8),
    ensures
        histogram_total(h) == data.len(),
{
    lemma_sum_bins_counts(h, data, 256);
    lemma_sum_counts_all(data);
}

impl Volume {
    /// Single linear pass over the texture bytes: bin `v` ends up holding
    /// the number of voxels of intensity `v`. Counts are kept as exact
    /// integers; the histogram therefore sums to the voxel count.
    pub fn calculate_histogram(texture_data: &Vec<u8>) -> (histogram: Vec<u64>)
        ensures
            histogram@.len() == 256,
            forall|v: int| 0 <= v < 256 ==> histogram@[v] == count_byte(texture_data@, v as u8),
            histogram_total(histogram@) == texture_data@.len(),
    {
        let mut histogram: Vec<u64> = Vec::new();
        let mut k: usize = 0;
        while k < 256
            invariant
                k <= 256,
                histogram@.len() == k,
                forall|v: int| 0 <= v < k ==> histogram@[v] == 0,
            decreases 256 - k,
        {
            histogram.push(0);
            k += 1;
        }
        proof {
            assert forall|v: int| 0 <= v < 256 implies histogram@[v] == count_byte(
                texture_data@.take(0),
                v as u8,
            ) by {
                assert(texture_data@.take(0).len() == 0);
            }
        }
        let n = texture_data.len();
        let mut i: usize = 0;
        while i < n
            invariant
                i <= n,
                n == texture_data@.len(),
                histogram@.len() == 256,
                forall|v: int| 0 <= v < 256 ==> histogram@[v] == count_byte(
                    texture_data@.take(i as int),
                    v as u8,
                ),
            decreases n - i,
        {
            let value = texture_data[i];
            let idx = value as usize;
            let c = histogram[idx];
            proof {
                lemma_count_byte_le_len(texture_data@.take(i as int), value);
            }
            histogram.set(idx, c + 1);
            proof {
                assert forall|v: int| 0 <= v < 256 implies histogram@[v] == count_byte(
                    texture_data@.take(i + 1),
                    v as u8,
                ) by {
                    lemma_count_byte_take_step(texture_data@, i as int, v as u8);
                }
            }
            i += 1;
        }
        proof {
            assert(texture_data@.take(n as int) =~= texture_data@);
            lemma_histogram_sum(histogram@, texture_data@);
        }
        histogram
    }
}

} // verus!
