//! Index logic of the curve profile: the frequency band selection and the
//! sliding-window lower hull of a curve.
//!
//! Curve values are handed in as integer keys that order them as the values
//! themselves are ordered, so that every decision taken here is exact.

use vstd::prelude::*;

verus! {

/// Window width of the lower hull when none is given.
pub const DEFAULT_AREA: usize = 10;

/// Window width of the lower hull for a requested width.
pub open spec fn hull_area(area: Option<usize>) -> usize {
    match area {
        Some(a) => a,
        None => DEFAULT_AREA,
    }
}

/// Index of the first smallest key among `s[lo..hi]`, found by a left-to-right
/// scan that only moves on a strictly smaller key.
pub open spec fn first_min_index(s: Seq<i64>, lo: int, hi: int) -> int
    decreases hi - lo,
{
    if hi <= lo + 1 {
        lo
    } else {
        let m = first_min_index(s, lo, hi - 1);
        if s[hi - 1] < s[m] {
            hi - 1
        } else {
            m
        }
    }
}

/// `m` is the first position of the smallest key in `s[lo..hi]`.
pub open spec fn is_first_min(s: Seq<i64>, lo: int, hi: int, m: int) -> bool {
    &&& lo <= m < hi
    &&& forall|k: int| lo <= k < hi ==> s[m] <= #[trigger] s[k]
    &&& forall|k: int| lo <= k < m ==> s[m] < #[trigger] s[k]
}

/// Absolute index of the first minimum of the window of width `area` that
/// starts at `start`.
pub open spec fn window_min(s: Seq<i64>, area: int, start: int) -> int {
    first_min_index(s, start, start + area)
}

/// `k` is the first minimum of some window starting before `windows`.
pub open spec fn is_window_min(s: Seq<i64>, area: int, windows: int, k: int) -> bool {
    exists|w: int| 0 <= w < windows && #[trigger] window_min(s, area, w) == k
}

/// The positions kept by the lower hull of `s` with windows of width `area`,
/// when there is at least one full window: the first and last positions, and
/// every position that is the first minimum of some window.
pub open spec fn is_hull_position(s: Seq<i64>, area: int, k: int) -> bool {
    k == 0 || k == s.len() - 1 || is_window_min(s, area, s.len() - area + 1, k)
}

/// Strictly increasing sequence of indices.
pub open spec fn strictly_increasing(v: Seq<usize>) -> bool {
    forall|i: int, j: int| 0 <= i < j < v.len() ==> v[i] < v[j]
}

/// The scan finds exactly the first minimum of the range.
pub proof fn lemma_first_min_index(s: Seq<i64>, lo: int, hi: int)
    requires
        0 <= lo < hi <= s.len(),
    ensures
        is_first_min(s, lo, hi, first_min_index(s, lo, hi)),
    decreases hi - lo,
{
    if hi > lo + 1 {
        lemma_first_min_index(s, lo, hi - 1);
    }
}

/// A range has only one first minimum.
pub proof fn lemma_first_min_unique(s: Seq<i64>, lo: int, hi: int, m1: int, m2: int)
    requires
        is_first_min(s, lo, hi, m1),
        is_first_min(s, lo, hi, m2),
    ensures
        m1 == m2,
{
    if m1 < m2 {
        assert(s[m2] < s[m1]);
        assert(s[m1] <= s[m2]);
    } else if m2 < m1 {
        assert(s[m1] < s[m2]);
        assert(s[m2] <= s[m1]);
    }
}

/// Sliding the window to the right never moves its first minimum to the left.
pub proof fn lemma_window_min_monotone(s: Seq<i64>, area: int, i: int, j: int)
    requires
        1 <= area,
        0 <= i <= j,
        j + area <= s.len(),
    ensures
        window_min(s, area, i) <= window_min(s, area, j),
    decreases j - i,
{
    if i < j {
        lemma_window_min_monotone(s, area, i, j - 1);
        let m = window_min(s, area, j - 1);
        let m2 = window_min(s, area, j);
        lemma_first_min_index(s, j - 1, j - 1 + area);
        lemma_first_min_index(s, j, j + area);
        if m2 < m {
            // m2 lies in the earlier window before its first minimum m
            assert(s[m] < s[m2]);
            // and m lies in the later window, whose first minimum is m2
            assert(s[m2] <= s[m]);
        }
    }
}

/// Absolute position of the first smallest key in the window of width `area`
/// that starts at `start`.
fn window_first_min(keys: &[i64], start: usize, area: usize) -> (m: usize)
    requires
        1 <= area,
        start + area <= keys@.len(),
    ensures
        m == window_min(keys@, area as int, start as int),
        start <= m < start + area,
{
    let len = keys.len();
    let mut rel_min: usize = 0;
    let mut min_val: i64 = keys[start];
    let mut j: usize = 1;
    while j < area
        invariant
            1 <= j <= area,
            len == keys@.len(),
            start + area <= len,
            rel_min < j,
            start + rel_min == first_min_index(keys@, start as int, start + j),
            min_val == keys@[start + rel_min],
        decreases area - j,
    {
        let v = keys[start + j];
        if v < min_val {
            min_val = v;
            rel_min = j;
        }
        j = j + 1;
    }
    start + rel_min
}

/// The first minima of all windows of width `area`, each once, in increasing
/// order, with their keys.
fn window_minima(keys: &[i64], area: usize) -> (res: (Vec<usize>, Vec<i64>))
    requires
        1 <= area <= keys@.len(),
    ensures
        res.0@.len() == res.1@.len(),
        res.0@.len() > 0,
        strictly_increasing(res.0@),
        forall|j: int| 0 <= j < res.0@.len() ==> #[trigger] res.0@[j] < keys@.len(),
        forall|j: int| 0 <= j < res.0@.len() ==> #[trigger] res.1@[j] == keys@[res.0@[j] as int],
        forall|w: int|
            0 <= w <= keys@.len() - area ==> res.0@.contains(window_min(keys@, area as int, w) as usize),
        forall|j: int|
            0 <= j < res.0@.len() ==> is_window_min(
                keys@,
                area as int,
                keys@.len() - area + 1,
                #[trigger] res.0@[j] as int,
            ),
{
    let ghost s = keys@;
    let a = area;
    let n = keys.len();
    let mut idx: Vec<usize> = Vec::new();
    let mut hull: Vec<i64> = Vec::new();
    let last_start = n - a;
    let mut i: usize = 0;
    while i <= last_start
        invariant
            1 <= a <= n,
            n == s.len(),
            s == keys@,
            last_start == n - a,
            i <= last_start + 1,
            idx@.len() == hull@.len(),
            forall|j: int| 0 <= j < idx@.len() ==> #[trigger] idx@[j] < n,
            forall|j: int| 0 <= j < idx@.len() ==> #[trigger] hull@[j] == s[idx@[j] as int],
            strictly_increasing(idx@),
            i == 0 <==> idx@.len() == 0,
            i > 0 ==> idx@.last() == window_min(s, a as int, i - 1),
            forall|w: int| 0 <= w < i ==> idx@.contains(window_min(s, a as int, w) as usize),
            forall|j: int| 0 <= j < idx@.len() ==> is_window_min(s, a as int, i as int, #[trigger] idx@[j] as int),
        decreases last_start + 1 - i,
    {
        let abs_idx = window_first_min(keys, i, a);
        proof {
            if i > 0 {
                lemma_window_min_monotone(s, a as int, i - 1, i as int);
            }
        }
        let ghost old_idx = idx@;
        if i == 0 || idx[idx.len() - 1] != abs_idx {
            idx.push(abs_idx);
            hull.push(keys[abs_idx]);
        }
        proof {
            assert forall|w: int| 0 <= w < i + 1 implies idx@.contains(
                window_min(s, a as int, w) as usize,
            ) by {
                if w < i {
                    let k = choose|k: int| 0 <= k < old_idx.len() && old_idx[k] == window_min(s, a as int, w) as usize;
                    assert(idx@[k] == old_idx[k]);
                } else {
                    assert(idx@[idx@.len() - 1] == abs_idx);
                }
            }
            assert forall|jj: int| 0 <= jj < idx@.len() implies is_window_min(
                s,
                a as int,
                i + 1,
                #[trigger] idx@[jj] as int,
            ) by {
                if jj < old_idx.len() {
                    assert(idx@[jj] == old_idx[jj]);
                    assert(is_window_min(s, a as int, i as int, old_idx[jj] as int));
                    let w = choose|w: int| 0 <= w < i && #[trigger] window_min(s, a as int, w) == old_idx[jj] as int;
                    assert(window_min(s, a as int, w) == idx@[jj] as int);
                } else {
                    assert(window_min(s, a as int, i as int) == idx@[jj] as int);
                }
            }
        }
        i = i + 1;
    }
    (idx, hull)
}

/// Compute the lower hull of the curve whose values are ordered by `keys`,
/// using a sliding window of width `area` (10 when `None`).
///
/// Returns the kept positions in increasing order and their keys. When there is
/// no full window (the width is 0 or exceeds the curve), only the two ends are
/// kept.
pub fn lower_hull(keys: &[i64], area: Option<usize>) -> (res: (Vec<usize>, Vec<i64>))
    requires
        keys@.len() > 0,
    ensures
        res.0@.len() == res.1@.len(),
        forall|j: int| 0 <= j < res.0@.len() ==> #[trigger] res.0@[j] < keys@.len(),
        forall|j: int| 0 <= j < res.0@.len() ==> #[trigger] res.1@[j] == keys@[res.0@[j] as int],
        ({
            let a = hull_area(area) as int;
            let n = keys@.len() as int;
            if a == 0 || n < a {
                res.0@ == seq![0usize, (n - 1) as usize]
            } else {
                &&& strictly_increasing(res.0@)
                &&& res.0@.len() > 0
                &&& res.0@[0] == 0
                &&& res.0@.last() == n - 1
                &&& forall|w: int| 0 <= w <= n - a ==> res.0@.contains(window_min(keys@, a, w) as usize)
                &&& forall|j: int| 0 <= j < res.0@.len() ==> is_hull_position(keys@, a, #[trigger] res.0@[j] as int)
            }
        }),
{
    let a = area.unwrap_or(DEFAULT_AREA);
    let n = keys.len();
    if a == 0 || n < a {
        let mut idx: Vec<usize> = Vec::new();
        idx.push(0);
        idx.push(n - 1);
        let mut hull: Vec<i64> = Vec::new();
        hull.push(keys[0]);
        hull.push(keys[n - 1]);
        return (idx, hull);
    }
    let (mut idx, mut hull) = window_minima(keys, a);
    let ghost core = idx@;
    // the first window may have its minimum after position 0
    prepend_first(&mut idx, &mut hull, keys);
    let ghost mid = idx@;
    // the last window may have its minimum before the last position
    append_last(&mut idx, &mut hull, keys);
    proof {
        let fin = idx@;
        assert forall|w: int| 0 <= w <= n - a implies fin.contains(window_min(keys@, a as int, w) as usize) by {
            let x = window_min(keys@, a as int, w) as usize;
            assert(core.contains(x));
            assert(mid.contains(x));
        }
        assert forall|jj: int| 0 <= jj < fin.len() implies is_hull_position(
            keys@,
            a as int,
            #[trigger] fin[jj] as int,
        ) by {
            let x = fin[jj];
            if x != n - 1 {
                assert(mid.contains(x));
                if x != 0 {
                    assert(core.contains(x));
                    let k = choose|k: int| 0 <= k < core.len() && core[k] == x;
                    assert(is_window_min(keys@, a as int, n - a + 1, core[k] as int));
                }
            }
        }
    }
    (idx, hull)
}

/// Increasing positions into `keys`, paired with the keys at them.
pub open spec fn positions_with_keys(idx: Seq<usize>, hull: Seq<i64>, keys: Seq<i64>) -> bool {
    &&& idx.len() == hull.len()
    &&& idx.len() > 0
    &&& strictly_increasing(idx)
    &&& forall|j: int| 0 <= j < idx.len() ==> #[trigger] idx[j] < keys.len()
    &&& forall|j: int| 0 <= j < idx.len() ==> #[trigger] hull[j] == keys[idx[j] as int]
}

/// Make position 0 the first kept position.
fn prepend_first(idx: &mut Vec<usize>, hull: &mut Vec<i64>, keys: &[i64])
    requires
        positions_with_keys(old(idx)@, old(hull)@, keys@),
    ensures
        positions_with_keys(final(idx)@, final(hull)@, keys@),
        final(idx)@[0] == 0,
        final(idx)@.last() == old(idx)@.last(),
        forall|x: usize| old(idx)@.contains(x) ==> final(idx)@.contains(x),
        forall|j: int| 0 <= j < final(idx)@.len() ==> #[trigger] final(idx)@[j] == 0 || old(idx)@.contains(final(idx)@[j]),
{
    let ghost oi = idx@;
    let ghost oh = hull@;
    if idx[0] != 0 {
        idx.insert(0, 0);
        hull.insert(0, keys[0]);
        proof {
            let ni = idx@;
            let nh = hull@;
            assert forall|j: int| 0 <= j < ni.len() implies #[trigger] ni[j] < keys@.len() && nh[j]
                == keys@[ni[j] as int] by {
                if j > 0 {
                    assert(ni[j] == oi[j - 1]);
                    assert(nh[j] == oh[j - 1]);
                }
            }
            assert forall|x: usize| oi.contains(x) implies ni.contains(x) by {
                let k = choose|k: int| 0 <= k < oi.len() && oi[k] == x;
                assert(ni[k + 1] == x);
            }
            assert forall|j: int| 0 <= j < ni.len() implies #[trigger] ni[j] == 0 || oi.contains(ni[j]) by {
                if j > 0 {
                    assert(ni[j] == oi[j - 1]);
                }
            }
        }
    }
}

/// Make the last position of `keys` the last kept position.
fn append_last(idx: &mut Vec<usize>, hull: &mut Vec<i64>, keys: &[i64])
    requires
        positions_with_keys(old(idx)@, old(hull)@, keys@),
    ensures
        positions_with_keys(final(idx)@, final(hull)@, keys@),
        final(idx)@[0] == old(idx)@[0],
        final(idx)@.last() == keys@.len() - 1,
        forall|x: usize| old(idx)@.contains(x) ==> final(idx)@.contains(x),
        forall|j: int|
            0 <= j < final(idx)@.len() ==> #[trigger] final(idx)@[j] == keys@.len() - 1 || old(idx)@.contains(
                final(idx)@[j],
            ),
{
    let ghost oi = idx@;
    let n = keys.len();
    if idx[idx.len() - 1] != n - 1 {
        idx.push(n - 1);
        hull.push(keys[n - 1]);
        proof {
            let ni = idx@;
            assert forall|p: int, q: int| 0 <= p < q < ni.len() implies ni[p] < ni[q] by {
                if q == oi.len() {
                    assert(oi[p] <= oi[oi.len() - 1]);
                    assert(oi[oi.len() - 1] < n);
                }
            }
            assert forall|x: usize| oi.contains(x) implies ni.contains(x) by {
                let k = choose|k: int| 0 <= k < oi.len() && oi[k] == x;
                assert(ni[k] == x);
            }
            assert forall|j: int| 0 <= j < ni.len() implies #[trigger] ni[j] == n - 1 || oi.contains(ni[j]) by {
                if j < oi.len() {
                    assert(ni[j] == oi[j]);
                }
            }
        }
    } else {
        proof {
            assert forall|j: int| 0 <= j < oi.len() implies #[trigger] oi[j] == n - 1 || oi.contains(oi[j]) by {}
        }
    }
}

/// Every window of the curve holds a kept hull position whose key is no larger
/// than any key of that window: the hull never lies above the curve's window
/// minima.
pub proof fn lemma_hull_below_every_window(keys: Seq<i64>, area: int, hull: Seq<usize>, w: int)
    requires
        1 <= area <= keys.len() <= usize::MAX,
        0 <= w <= keys.len() - area,
        forall|v: int| 0 <= v <= keys.len() - area ==> hull.contains(window_min(keys, area, v) as usize),
    ensures
        exists|j: int|
            0 <= j < hull.len() && w <= #[trigger] hull[j] < w + area && (forall|k: int|
                w <= k < w + area ==> keys[hull[j] as int] <= #[trigger] keys[k]),
{
    lemma_first_min_index(keys, w, w + area);
    let m = window_min(keys, area, w);
    assert(hull.contains(m as usize));
    let j = choose|j: int| 0 <= j < hull.len() && hull[j] == m as usize;
    assert(hull[j] as int == m);
    assert(w <= hull[j] < w + area);
}

/// `k` lies strictly between `lo` and `hi`.
pub open spec fn in_band(k: i64, lo: i64, hi: i64) -> bool {
    lo < k && k < hi
}

/// Positions of the keys that lie strictly between `lo` and `hi`, in increasing
/// order: the frequencies kept by the curve profile.
pub fn band_indices(keys: &[i64], lo: i64, hi: i64) -> (band: Vec<usize>)
    ensures
        strictly_increasing(band@),
        forall|j: int| 0 <= j < band@.len() ==> #[trigger] band@[j] < keys@.len(),
        forall|j: int| 0 <= j < band@.len() ==> in_band(keys@[#[trigger] band@[j] as int], lo, hi),
        forall|i: int| 0 <= i < keys@.len() && in_band(keys@[i], lo, hi) ==> band@.contains(i as usize),
        forall|j: int|
            0 <= j < band@.len() ==> lo < keys@[#[trigger] band@[j] as int] && keys@[band@[j] as int] < hi,
        forall|i: int| 0 <= i < keys@.len() && lo < keys@[i] && keys@[i] < hi ==> band@.contains(i as usize),
{
    let n = keys.len();
    let mut band: Vec<usize> = Vec::new();
    let mut i: usize = 0;
    while i < n
        invariant
            i <= n,
            n == keys@.len(),
            strictly_increasing(band@),
            forall|j: int| 0 <= j < band@.len() ==> #[trigger] band@[j] < i,
            forall|j: int| 0 <= j < band@.len() ==> in_band(keys@[#[trigger] band@[j] as int], lo, hi),
            forall|k: int| 0 <= k < i && in_band(keys@[k], lo, hi) ==> band@.contains(k as usize),
        decreases n - i,
    {
        let ghost before = band@;
        if lo < keys[i] && keys[i] < hi {
            band.push(i);
            proof {
                assert forall|k: int| 0 <= k < i + 1 && in_band(keys@[k], lo, hi) implies band@.contains(
                    k as usize,
                ) by {
                    if k < i {
                        let q = choose|q: int| 0 <= q < before.len() && before[q] == k as usize;
                        assert(band@[q] == k as usize);
                    } else {
                        assert(band@[band@.len() - 1] == k as usize);
                    }
                }
            }
        }
        i = i + 1;
    }
    band
}

/// The items of `items` at the positions `positions`, in that order.
pub fn select_items<T: Copy>(items: &[T], positions: &[usize]) -> (out: Vec<T>)
    requires
        forall|j: int| 0 <= j < positions@.len() ==> #[trigger] positions@[j] < items@.len(),
    ensures
        out@.len() == positions@.len(),
        forall|j: int| 0 <= j < positions@.len() ==> #[trigger] out@[j] == items@[positions@[j] as int],
{
    let mut out: Vec<T> = Vec::new();
    let mut j: usize = 0;
    while j < positions.len()
        invariant
            j <= positions@.len(),
            forall|q: int| 0 <= q < positions@.len() ==> #[trigger] positions@[q] < items@.len(),
            out@.len() == j,
            forall|q: int| 0 <= q < j ==> #[trigger] out@[q] == items@[positions@[q] as int],
        decreases positions@.len() - j,
    {
        out.push(items[positions[j]]);
        j = j + 1;
    }
    out
}

/// A key is in the band exactly when it lies strictly between the bounds,
/// whatever the bounds are.
pub proof fn lemma_in_band_is_strictly_between(k: i64, lo: i64, hi: i64)
    ensures
        in_band(k, lo, hi) <==> (lo < k && k < hi),
{
}

/// With no width given the hull uses windows 10 keys wide, the same as asking
/// for 10; a given width is used as it is.
pub proof fn lemma_hull_area_default(a: usize)
    ensures
        hull_area(None) == 10,
        hull_area(None) == hull_area(Some(10)),
        hull_area(Some(a)) == a,
{
}

/// The first minimum of a window lies in the window, is no larger than any key
/// of the window, and is strictly smaller than every key before it there.
pub proof fn lemma_window_min_is_first_smallest(s: Seq<i64>, area: int, w: int)
    requires
        1 <= area,
        0 <= w,
        w + area <= s.len(),
    ensures
        w <= window_min(s, area, w) < w + area,
        forall|k: int| w <= k < w + area ==> s[window_min(s, area, w)] <= #[trigger] s[k],
        forall|k: int| w <= k < window_min(s, area, w) ==> s[window_min(s, area, w)] < #[trigger] s[k],
{
    lemma_first_min_index(s, w, w + area);
}

/// The positions a hull may keep: the two ends, and the first minimum of some
/// full window.
pub proof fn lemma_hull_position_meaning(s: Seq<i64>, area: int, k: int)
    ensures
        is_hull_position(s, area, k) <==> (k == 0 || k == s.len() - 1 || exists|w: int|
            0 <= w <= s.len() - area && #[trigger] window_min(s, area, w) == k),
{
}

/// Strictly increasing means each index is smaller than every later one.
pub proof fn lemma_strictly_increasing_meaning(v: Seq<usize>)
    ensures
        strictly_increasing(v) <==> forall|i: int, j: int| 0 <= i < j < v.len() ==> #[trigger] v[i]
            < #[trigger] v[j],
{
}

/// The default window width is 10 keys.
pub proof fn lemma_default_area_constant()
    ensures
        DEFAULT_AREA == 10,
{
}

} // verus!
