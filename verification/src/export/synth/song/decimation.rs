//! Keeping of a series of samples only what straight lines cannot restore. Values
//! are integers in any unit.

use vstd::prelude::*;

verus! {

/// The greatest value of a sample.
pub const MAX_SAMPLE: i64 = 0x100_0000_0000;

/// How far a sample is off the line between two others, times their distance.
pub open spec fn deviation(values: Seq<i64>, lo: int, hi: int, m: int) -> int {
    let d = (values[m] - values[lo]) * (hi - lo) - (values[hi] - values[lo]) * (m - lo);
    if d < 0 {
        -d
    } else {
        d
    }
}

/// The sample before `m` that is the furthest off the line between two others: the
/// first one if there are several, and `lo` if none is off it.
pub open spec fn furthest(values: Seq<i64>, lo: int, hi: int, m: int) -> int
    decreases m - lo,
{
    if m <= lo + 1 {
        lo
    } else {
        let before = furthest(values, lo, hi, m - 1);
        if deviation(values, lo, hi, m - 1) > deviation(values, lo, hi, before) {
            m - 1
        } else {
            before
        }
    }
}

/// Whether a line between two samples is too far off some sample between them.
pub open spec fn must_split(values: Seq<i64>, epsilon: i64, lo: int, hi: int) -> bool {
    hi > lo + 1 && deviation(values, lo, hi, furthest(values, lo, hi, hi)) > epsilon * (hi - lo)
}

proof fn furthest_is_between(values: Seq<i64>, lo: int, hi: int, m: int)
    requires
        lo < hi,
        m <= hi,
    ensures
        lo <= furthest(values, lo, hi, m),
        furthest(values, lo, hi, m) < m || furthest(values, lo, hi, m) == lo,
        forall|x: int|
            lo <= x < m ==> #[trigger] deviation(values, lo, hi, x) <= deviation(
                values,
                lo,
                hi,
                furthest(values, lo, hi, m),
            ),
    decreases m - lo,
{
    if m > lo + 1 {
        furthest_is_between(values, lo, hi, m - 1);
    }
    on_the_line(values, lo, hi);
}

proof fn on_the_line(values: Seq<i64>, lo: int, hi: int)
    ensures
        deviation(values, lo, hi, lo) == 0,
{
    assert((values[hi] - values[lo]) * (lo - lo) == 0) by (nonlinear_arith);
    assert((values[lo] - values[lo]) * (hi - lo) == 0) by (nonlinear_arith);
}

proof fn split_is_inside(values: Seq<i64>, epsilon: i64, lo: int, hi: int)
    requires
        epsilon >= 0,
        must_split(values, epsilon, lo, hi),
    ensures
        lo < furthest(values, lo, hi, hi) < hi,
{
    furthest_is_between(values, lo, hi, hi);
    on_the_line(values, lo, hi);
    assert(epsilon * (hi - lo) >= 0) by (nonlinear_arith)
        requires
            epsilon >= 0,
            hi > lo,
    ;
}

/// The samples that are kept between two others: where a line would be too far off,
/// the furthest one, and what is kept on both sides of it.
pub open spec fn kept_between(values: Seq<i64>, epsilon: i64, lo: int, hi: int) -> Seq<int>
    decreases hi - lo,
{
    if epsilon < 0 || !must_split(values, epsilon, lo, hi) {
        Seq::empty()
    } else {
        let s = furthest(values, lo, hi, hi);
        if lo < s < hi {
            kept_between(values, epsilon, lo, s).push(s) + kept_between(values, epsilon, s, hi)
        } else {
            Seq::empty()
        }
    }
}

/// The samples of a series that are kept, by their places.
pub open spec fn kept_samples(values: Seq<i64>, epsilon: i64) -> Seq<int> {
    let n = values.len() as int;
    if n <= 2 {
        Seq::new(n as nat, |i: int| i)
    } else {
        seq![0int] + kept_between(values, epsilon, 0, n - 1) + seq![n - 1]
    }
}

/// What is still kept from `lo` on, where the ends of the lines to come are stacked.
pub open spec fn still_kept(values: Seq<i64>, epsilon: i64, lo: int, ends: Seq<usize>) -> Seq<int>
    decreases ends.len(),
{
    if ends.len() == 0 {
        Seq::empty()
    } else {
        let hi = ends.last() as int;
        kept_between(values, epsilon, lo, hi).push(hi) + still_kept(
            values,
            epsilon,
            hi,
            ends.drop_last(),
        )
    }
}

/// Whether the samples of a series are within bounds.
pub open spec fn moderate(values: Seq<i64>) -> bool {
    forall|i: int| 0 <= i < values.len() ==> -MAX_SAMPLE <= #[trigger] values[i] <= MAX_SAMPLE
}

fn measure(values: &[i64], lo: usize, hi: usize, m: usize) -> (r: i128)
    requires
        moderate(values@),
        lo <= m <= hi < values@.len() <= u32::MAX,
    ensures
        r == deviation(values@, lo as int, hi as int, m as int),
{
    assert(-MAX_SAMPLE <= values@[lo as int] <= MAX_SAMPLE);
    assert(-MAX_SAMPLE <= values@[hi as int] <= MAX_SAMPLE);
    assert(-MAX_SAMPLE <= values@[m as int] <= MAX_SAMPLE);
    let a: i128 = values[m] as i128 - values[lo] as i128;
    let b: i128 = values[hi] as i128 - values[lo] as i128;
    let span: i128 = (hi - lo) as i128;
    let step: i128 = (m - lo) as i128;
    assert(-0x200_0000_0000_0000_0000_0000 <= a * span <= 0x200_0000_0000_0000_0000_0000)
        by (nonlinear_arith)
        requires
            -0x200_0000_0000 <= a <= 0x200_0000_0000,
            0 <= span <= 0xFFFF_FFFF,
    ;
    assert(-0x200_0000_0000_0000_0000_0000 <= b * step <= 0x200_0000_0000_0000_0000_0000)
        by (nonlinear_arith)
        requires
            -0x200_0000_0000 <= b <= 0x200_0000_0000,
            0 <= step <= 0xFFFF_FFFF,
    ;
    let d: i128 = a * span - b * step;
    if d < 0 {
        -d
    } else {
        d
    }
}

fn find_split(values: &[i64], epsilon: i64, lo: usize, hi: usize) -> (r: Option<usize>)
    requires
        moderate(values@),
        lo < hi < values@.len() <= u32::MAX,
        0 <= epsilon <= MAX_SAMPLE,
    ensures
        match r {
            Some(s) => must_split(values@, epsilon, lo as int, hi as int) && s == furthest(
                values@,
                lo as int,
                hi as int,
                hi as int,
            ) && lo < s < hi,
            None => !must_split(values@, epsilon, lo as int, hi as int),
        },
{
    if hi <= lo + 1 {
        return None;
    }
    let mut best: i128 = 0;
    let mut split: usize = lo;
    let mut m: usize = lo + 1;
    proof {
        on_the_line(values@, lo as int, hi as int);
    }
    while m < hi
        invariant
            moderate(values@),
            lo + 1 <= m <= hi < values@.len() <= u32::MAX,
            lo <= split < m,
            split == furthest(values@, lo as int, hi as int, m as int),
            best == deviation(values@, lo as int, hi as int, split as int),
        decreases hi - m,
    {
        let here: i128 = measure(values, lo, hi, m);
        if here > best {
            best = here;
            split = m;
        }
        m += 1;
    }
    assert(epsilon * (hi - lo) <= 0x200_0000_0000_0000_0000_0000) by (nonlinear_arith)
        requires
            0 <= epsilon <= 0x100_0000_0000,
            0 <= hi - lo <= 0xFFFF_FFFF,
    ;
    assert(0 <= epsilon * (hi - lo)) by (nonlinear_arith)
        requires
            0 <= epsilon,
            0 <= hi - lo,
    ;
    let allowed: i128 = epsilon as i128 * (hi - lo) as i128;
    if best > allowed {
        proof {
            split_is_inside(values@, epsilon, lo as int, hi as int);
        }
        Some(split)
    } else {
        None
    }
}

/// Places as integers.
pub open spec fn as_places(v: Seq<usize>) -> Seq<int> {
    Seq::new(v.len(), |i: int| v[i] as int)
}

/// Finds the samples of a series to keep: the first, the last, and those that a line
/// between kept ones would miss by more than `epsilon`.
pub fn rdp_indices(values: &[i64], epsilon: i64) -> (r: Vec<usize>)
    requires
        moderate(values@),
        values@.len() <= u32::MAX,
        0 <= epsilon <= MAX_SAMPLE,
    ensures
        as_places(r@) == kept_samples(values@, epsilon),
{
    let n: usize = values.len();
    let mut out: Vec<usize> = Vec::new();
    if n <= 2 {
        if n >= 1 {
            out.push(0);
        }
        if n == 2 {
            out.push(1);
        }
        assert(as_places(out@) =~= kept_samples(values@, epsilon));
        return out;
    }
    out.push(0);
    let mut lo: usize = 0;
    let mut ends: Vec<usize> = Vec::new();
    ends.push(n - 1);
    let ghost wanted = kept_samples(values@, epsilon);
    proof {
        assert(ends@.drop_last() =~= Seq::<usize>::empty());
        assert(as_places(out@) =~= seq![0int]);
        assert(still_kept(values@, epsilon, n - 1, ends@.drop_last()) =~= Seq::<int>::empty());
        assert(as_places(out@) + still_kept(values@, epsilon, 0, ends@) =~= wanted);
    }
    while ends.len() > 0
        invariant
            moderate(values@),
            values@.len() == n <= u32::MAX,
            0 <= epsilon <= MAX_SAMPLE,
            lo < n,
            forall|i: int| 0 <= i < ends@.len() ==> lo < #[trigger] ends@[i] < n,
            forall|i: int, j: int|
                0 <= i < j < ends@.len() ==> #[trigger] ends@[i] > #[trigger] ends@[j],
            as_places(out@) + still_kept(values@, epsilon, lo as int, ends@) == wanted,
        decreases n - lo, (if ends@.len() > 0 {
            ends@.last() - lo
        } else {
            0
        }),
    {
        let ghost before = ends@;
        let ghost done = as_places(out@);
        let hi: usize = ends[ends.len() - 1];
        assert(hi == ends@.last());
        match find_split(values, epsilon, lo, hi) {
            Some(s) => {
                ends.push(s);
                proof {
                    assert(ends@.drop_last() =~= before);
                    let left = kept_between(values@, epsilon, lo as int, s as int);
                    let right = kept_between(values@, epsilon, s as int, hi as int);
                    let rest = still_kept(values@, epsilon, hi as int, before.drop_last());
                    assert(kept_between(values@, epsilon, lo as int, hi as int) == left.push(
                        s as int,
                    ) + right);
                    assert(still_kept(values@, epsilon, lo as int, before) == (left.push(s as int)
                        + right).push(hi as int) + rest);
                    assert(still_kept(values@, epsilon, s as int, before) == right.push(hi as int)
                        + rest);
                    assert(still_kept(values@, epsilon, lo as int, ends@) == left.push(s as int) + (
                    right.push(hi as int) + rest));
                    assert(still_kept(values@, epsilon, lo as int, ends@) =~= still_kept(
                        values@,
                        epsilon,
                        lo as int,
                        before,
                    ));
                }
            },
            None => {
                ends.pop();
                out.push(hi);
                proof {
                    assert(ends@ =~= before.drop_last());
                    assert(as_places(out@) =~= done.push(hi as int));
                    let rest = still_kept(values@, epsilon, hi as int, ends@);
                    assert(kept_between(values@, epsilon, lo as int, hi as int) =~= Seq::<
                        int,
                    >::empty());
                    assert(still_kept(values@, epsilon, lo as int, before) =~= seq![hi as int]
                        + rest);
                    assert(as_places(out@) + rest =~= done + still_kept(
                        values@,
                        epsilon,
                        lo as int,
                        before,
                    ));
                }
                lo = hi;
            },
        }
    }
    assert(as_places(out@) =~= wanted);
    out
}

/// Whether places ascend, and no sample between two of them is off the line between
/// these by more than `epsilon`.
pub open spec fn lines_restore(values: Seq<i64>, epsilon: i64, places: Seq<int>) -> bool {
    forall|k: int| 0 <= k < places.len() - 1 ==> #[trigger] line_restores(values, epsilon, places, k)
}

/// Whether no sample between a place and the next is off the line between these by
/// more than `epsilon`.
pub open spec fn line_restores(values: Seq<i64>, epsilon: i64, places: Seq<int>, k: int) -> bool {
    places[k] < places[k + 1] && forall|m: int|
        places[k] < m < places[k + 1] ==> #[trigger] deviation(
            values,
            places[k],
            places[k + 1],
            m,
        ) <= epsilon * (places[k + 1] - places[k])
}

proof fn joined_lines_restore(values: Seq<i64>, epsilon: i64, a: Seq<int>, b: Seq<int>)
    requires
        a.len() > 0,
        b.len() > 0,
        a.last() == b[0],
        lines_restore(values, epsilon, a),
        lines_restore(values, epsilon, b),
    ensures
        lines_restore(values, epsilon, a + b.drop_first()),
{
    let c = a + b.drop_first();
    assert forall|k: int| 0 <= k < c.len() - 1 implies #[trigger] line_restores(
        values,
        epsilon,
        c,
        k,
    ) by {
        if k < a.len() - 1 {
            assert(line_restores(values, epsilon, a, k));
            assert(c[k] == a[k] && c[k + 1] == a[k + 1]);
        } else {
            let j = k - (a.len() - 1);
            assert(line_restores(values, epsilon, b, j));
            assert(c[k] == b[j] && c[k + 1] == b[j + 1]);
        }
    }
}

proof fn kept_lines_restore(values: Seq<i64>, epsilon: i64, lo: int, hi: int)
    requires
        lo < hi,
        0 <= epsilon,
    ensures
        lines_restore(
            values,
            epsilon,
            seq![lo] + kept_between(values, epsilon, lo, hi) + seq![hi],
        ),
    decreases hi - lo,
{
    let all = seq![lo] + kept_between(values, epsilon, lo, hi) + seq![hi];
    if must_split(values, epsilon, lo, hi) {
        let s = furthest(values, lo, hi, hi);
        split_is_inside(values, epsilon, lo, hi);
        kept_lines_restore(values, epsilon, lo, s);
        kept_lines_restore(values, epsilon, s, hi);
        let a = seq![lo] + kept_between(values, epsilon, lo, s) + seq![s];
        let b = seq![s] + kept_between(values, epsilon, s, hi) + seq![hi];
        joined_lines_restore(values, epsilon, a, b);
        assert(b.drop_first() =~= kept_between(values, epsilon, s, hi) + seq![hi]);
        assert(all =~= a + b.drop_first());
    } else {
        assert(all =~= seq![lo, hi]);
        furthest_is_between(values, lo, hi, hi);
        on_the_line(values, lo, hi);
        assert(line_restores(values, epsilon, all, 0));
    }
}

/// What is kept of a series restores it: the first and the last sample are kept, the
/// kept ones ascend, and straight lines between them stay within `epsilon` of every
/// sample.
pub proof fn kept_samples_restore_the_series(values: Seq<i64>, epsilon: i64)
    requires
        0 <= epsilon,
        values.len() > 0,
    ensures
        kept_samples(values, epsilon).len() > 0,
        kept_samples(values, epsilon)[0] == 0,
        kept_samples(values, epsilon).last() == values.len() - 1,
        lines_restore(values, epsilon, kept_samples(values, epsilon)),
{
    let n = values.len() as int;
    let places = kept_samples(values, epsilon);
    if n > 2 {
        kept_lines_restore(values, epsilon, 0, n - 1);
    } else {
        assert forall|k: int| 0 <= k < places.len() - 1 implies #[trigger] line_restores(
            values,
            epsilon,
            places,
            k,
        ) by {}
    }
}

} // verus!
