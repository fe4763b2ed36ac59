use vstd::prelude::*;

verus! {

/// Frames of this many samples are the unit of onset detection.
pub const HOP: usize = 256;

/// Number of slices made when the sample is cut evenly.
pub const EVEN_SLICES: usize = 16;

/// Fewest frames, and fewest onsets, that onset slicing works with; below this
/// the sample is cut evenly.
pub const MIN_ONSETS: usize = 4;

/// `n` slices of `len / n` samples each, back to back from sample 0.
pub open spec fn even_slices(len: int, n: int) -> Seq<(usize, usize)> {
    Seq::new(n as nat, |i: int| ((i * (len / n)) as usize, ((i + 1) * (len / n)) as usize))
}

proof fn lemma_even_bounds(len: int, n: int, i: int)
    requires
        0 <= len,
        0 < n,
        0 <= i < n,
    ensures
        0 <= i * (len / n) <= (i + 1) * (len / n) <= n * (len / n) <= len,
        (i + 1) * (len / n) == i * (len / n) + len / n,
{
    let w = len / n;
    vstd::arithmetic::div_mod::lemma_fundamental_div_mod(len, n);
    assert(0 <= w) by (nonlinear_arith)
        requires
            0 <= len,
            0 < n,
            w == len / n,
    ;
    assert(0 <= i * w <= (i + 1) * w <= n * w) by (nonlinear_arith)
        requires
            0 <= i < n,
            0 <= w,
    ;
    assert((i + 1) * w == i * w + w) by (nonlinear_arith);
}

/// Cuts `len` samples into `n` slices of `len / n` samples each, back to back
/// from sample 0; the last `len % n` samples belong to no slice.
pub fn slice_even(len: usize, n: usize) -> (r: Vec<(usize, usize)>)
    requires
        n > 0,
    ensures
        r@ == even_slices(len as int, n as int),
{
    let w = len / n;
    let mut r: Vec<(usize, usize)> = Vec::new();
    let mut i: usize = 0;
    while i < n
        invariant
            0 < n,
            i <= n,
            w == len / n,
            r@ == even_slices(len as int, n as int).take(i as int),
        decreases n - i,
    {
        proof {
            lemma_even_bounds(len as int, n as int, i as int);
        }
        let end = if (i + 1) * w < len { (i + 1) * w } else { len };
        r.push((i * w, end));
        i += 1;
        assert(r@ =~= even_slices(len as int, n as int).take(i as int));
    }
    assert(r@ =~= even_slices(len as int, n as int));
    r
}

/// The onset frames chosen when frames `1 .. f` have been looked at: frame 0,
/// then, in order, each frame `g` marked in `peaks` that lies at least
/// `min_gap` frames after the onset chosen before it.
pub open spec fn onsets_upto(peaks: Seq<bool>, min_gap: int, f: int) -> Seq<usize>
    decreases f,
{
    if f <= 1 {
        seq![0usize]
    } else {
        let prev = onsets_upto(peaks, min_gap, f - 1);
        let g = f - 1;
        if peaks[g] && g - prev.last() >= min_gap {
            prev.push(g as usize)
        } else {
            prev
        }
    }
}

/// Slices between consecutive onsets (given as frames), the last one running
/// to the end of the sample.
pub open spec fn onset_slices(onsets: Seq<usize>, len: int) -> Seq<(usize, usize)> {
    Seq::new(
        onsets.len(),
        |i: int|
            if i + 1 < onsets.len() {
                ((onsets[i] * HOP) as usize, (onsets[i + 1] * HOP) as usize)
            } else {
                ((onsets[i] * HOP) as usize, len as usize)
            },
    )
}

/// The slices of a sample of `len` samples whose frames flagged in `peaks` are
/// onset candidates: with fewer than `MIN_ONSETS` frames, or fewer than
/// `MIN_ONSETS` onsets, the sample is cut into `EVEN_SLICES` even slices.
pub open spec fn transient_slices(len: int, peaks: Seq<bool>, min_gap: int) -> Seq<(usize, usize)> {
    let frames = peaks.len() as int;
    if frames < MIN_ONSETS {
        even_slices(len, EVEN_SLICES as int)
    } else {
        let onsets = onsets_upto(peaks, min_gap, frames - 1);
        if onsets.len() < MIN_ONSETS {
            even_slices(len, EVEN_SLICES as int)
        } else {
            onset_slices(onsets, len)
        }
    }
}

/// The chosen onsets start at frame 0, rise strictly, lie below `f` (or are
/// frame 0), and each lies at least `min_gap` frames after the one before it.
pub proof fn lemma_onsets_shape(peaks: Seq<bool>, min_gap: int, f: int)
    requires
        0 <= min_gap,
        f <= peaks.len(),
        f <= usize::MAX,
    ensures
        ({
            let o = onsets_upto(peaks, min_gap, f);
            &&& o.len() >= 1
            &&& o[0] == 0
            &&& forall|i: int| 0 < i < o.len() ==> 0 < #[trigger] o[i] < f
            &&& forall|i: int| 0 <= i < o.len() - 1 ==> o[i] < #[trigger] o[i + 1]
            &&& forall|i: int| 0 <= i < o.len() - 1 ==> #[trigger] o[i + 1] - o[i] >= min_gap
            &&& forall|i: int| 0 < i < o.len() ==> #[trigger] peaks[o[i] as int]
        }),
    decreases f,
{
    if f > 1 {
        lemma_onsets_shape(peaks, min_gap, f - 1);
        let prev = onsets_upto(peaks, min_gap, f - 1);
        let o = onsets_upto(peaks, min_gap, f);
        if peaks[f - 1] && (f - 1) - prev.last() >= min_gap {
            assert(o == prev.push((f - 1) as usize));
            assert forall|i: int| 0 <= i < o.len() - 1 implies o[i] < #[trigger] o[i + 1] by {
                if i + 1 < prev.len() {
                    assert(o[i] == prev[i] && o[i + 1] == prev[i + 1]);
                } else {
                    assert(o[i] == prev[prev.len() - 1] && o[i + 1] == f - 1);
                }
            }
            assert forall|i: int| 0 <= i < o.len() - 1 implies #[trigger] o[i + 1] - o[i] >= min_gap by {
                if i + 1 < prev.len() {
                    assert(o[i] == prev[i] && o[i + 1] == prev[i + 1]);
                } else {
                    assert(o[i] == prev[prev.len() - 1] && o[i + 1] == f - 1);
                }
            }
        }
    }
}

/// Cuts a sample of `len` samples at its onsets. `peaks[f]` says whether frame
/// `f` (samples `f * HOP ..`) is an onset candidate; frame 0 always starts a
/// slice, and a candidate becomes an onset when it lies at least `min_gap`
/// frames after the previous onset. The last frame is never looked at. With
/// fewer than `MIN_ONSETS` frames or onsets the sample is cut evenly into
/// `EVEN_SLICES` slices.
pub fn slice_at_onsets(len: usize, peaks: &Vec<bool>, min_gap: usize) -> (r: Vec<(usize, usize)>)
    requires
        peaks.len() == len / HOP,
    ensures
        r@ == transient_slices(len as int, peaks@, min_gap as int),
{
    let frames = peaks.len();
    if frames < MIN_ONSETS {
        return slice_even(len, EVEN_SLICES);
    }
    let mut onsets: Vec<usize> = Vec::new();
    onsets.push(0);
    let mut last: usize = 0;
    let mut f: usize = 1;
    assert(onsets@ =~= onsets_upto(peaks@, min_gap as int, 1));
    while f < frames - 1
        invariant
            frames == peaks.len(),
            frames >= MIN_ONSETS,
            1 <= f <= frames - 1,
            onsets@ == onsets_upto(peaks@, min_gap as int, f as int),
            last == onsets@.last(),
            onsets@.len() >= 1,
            last < f,
            onsets@.len() <= f,
        decreases frames - 1 - f,
    {
        proof {
            lemma_onsets_shape(peaks@, min_gap as int, f as int);
        }
        if peaks[f] && f - last >= min_gap {
            onsets.push(f);
            last = f;
        }
        f += 1;
    }
    if onsets.len() < MIN_ONSETS {
        return slice_even(len, EVEN_SLICES);
    }
    proof {
        lemma_onsets_shape(peaks@, min_gap as int, f as int);
        assert(frames * HOP <= len) by {
            vstd::arithmetic::div_mod::lemma_fundamental_div_mod(len as int, HOP as int);
        }
    }
    let k = onsets.len();
    let mut r: Vec<(usize, usize)> = Vec::new();
    let mut i: usize = 0;
    while i + 1 < k
        invariant
            k == onsets@.len(),
            k >= MIN_ONSETS,
            i + 1 <= k,
            onsets@ == onsets_upto(peaks@, min_gap as int, (frames - 1) as int),
            frames * HOP <= len,
            forall|j: int| 0 < j < k ==> 0 < #[trigger] onsets@[j] < frames - 1,
            onsets@[0] == 0,
            r@ == onset_slices(onsets@, len as int).take(i as int),
        decreases k - i,
    {
        let a = onsets[i];
        let b = onsets[i + 1];
        assert(a * HOP <= len && b * HOP <= len) by (nonlinear_arith)
            requires
                a < frames,
                b < frames,
                frames * HOP <= len,
        ;
        r.push((a * HOP, b * HOP));
        i += 1;
        assert(r@ =~= onset_slices(onsets@, len as int).take(i as int));
    }
    let a = onsets[k - 1];
    assert(a * HOP <= len) by (nonlinear_arith)
        requires
            a < frames,
            frames * HOP <= len,
    ;
    r.push((a * HOP, len));
    assert(r@ =~= onset_slices(onsets@, len as int));
    r
}

/// The slices cover the sample from its first sample on, back to back and
/// within its bounds.
pub open spec fn tiles(r: Seq<(usize, usize)>, len: int) -> bool {
    &&& r.len() >= 1
    &&& r[0].0 == 0
    &&& forall|i: int| 0 <= i < r.len() - 1 ==> #[trigger] r[i].1 == r[i + 1].0
    &&& forall|i: int| 0 <= i < r.len() ==> #[trigger] r[i].0 <= r[i].1
    &&& r[r.len() - 1].1 <= len
}

/// Even slicing: `n` slices of `len / n` samples each cover the sample from
/// sample 0, back to back, leaving out fewer than `n` samples at its end.
pub proof fn lemma_even_slices_tile(len: usize, n: usize)
    requires
        n > 0,
    ensures
        tiles(even_slices(len as int, n as int), len as int),
        even_slices(len as int, n as int).len() == n,
        forall|i: int| 0 <= i < n ==> #[trigger] even_slices(len as int, n as int)[i].1
            - even_slices(len as int, n as int)[i].0 == len / n,
        len - even_slices(len as int, n as int)[n - 1].1 < n,
{
    let r = even_slices(len as int, n as int);
    assert forall|i: int| 0 <= i < n implies {
        &&& (#[trigger] r[i]).0 == i * (len / n)
        &&& r[i].1 == (i + 1) * (len / n)
        &&& r[i].0 <= r[i].1 <= len
        &&& r[i].1 - r[i].0 == len / n
    } by {
        lemma_even_bounds(len as int, n as int, i);
    }
    assert forall|i: int| 0 <= i < r.len() - 1 implies #[trigger] r[i].1 == r[i + 1].0 by {
        assert(r[i].1 == (i + 1) * (len / n));
        assert(r[i + 1].0 == (i + 1) * (len / n));
    }
    vstd::arithmetic::div_mod::lemma_fundamental_div_mod(len as int, n as int);
    assert(r[n - 1].1 == n * (len / n)) by {
        lemma_even_bounds(len as int, n as int, n - 1);
    }
}

/// Whatever the onset candidates, the slices of a sample cover it from sample
/// 0, back to back, with at least `MIN_ONSETS` slices; onset slicing reaches
/// the last sample and gives every slice at least one sample, and the even
/// fallback leaves out fewer than `EVEN_SLICES` samples at the end.
pub proof fn lemma_slices_tile(len: usize, peaks: Seq<bool>, min_gap: usize)
    requires
        peaks.len() == len / HOP,
    ensures
        tiles(transient_slices(len as int, peaks, min_gap as int), len as int),
        transient_slices(len as int, peaks, min_gap as int).len() >= MIN_ONSETS,
        len - transient_slices(len as int, peaks, min_gap as int).last().1 < EVEN_SLICES,
        peaks.len() >= MIN_ONSETS && onsets_upto(peaks, min_gap as int, peaks.len() - 1).len()
            >= MIN_ONSETS ==> {
            let r = transient_slices(len as int, peaks, min_gap as int);
            &&& r.last().1 == len
            &&& forall|i: int| 0 <= i < r.len() ==> #[trigger] r[i].0 < r[i].1
        },
{
    let r = transient_slices(len as int, peaks, min_gap as int);
    let frames = peaks.len() as int;
    if frames < MIN_ONSETS {
        lemma_even_slices_tile(len, EVEN_SLICES);
        return;
    }
    let onsets = onsets_upto(peaks, min_gap as int, frames - 1);
    if onsets.len() < MIN_ONSETS {
        lemma_even_slices_tile(len, EVEN_SLICES);
        return;
    }
    lemma_onsets_shape(peaks, min_gap as int, frames - 1);
    vstd::arithmetic::div_mod::lemma_fundamental_div_mod(len as int, HOP as int);
    assert(frames * HOP <= len);
    assert forall|i: int| 0 <= i < onsets.len() implies #[trigger] onsets[i] * HOP < len by {
        let o = onsets[i] as int;
        assert(o < frames);
        assert(o * HOP < len) by (nonlinear_arith)
            requires
                0 <= o < frames,
                frames * HOP <= len,
        ;
    }
    assert forall|i: int| 0 <= i < r.len() - 1 implies #[trigger] r[i].1 == r[i + 1].0 by {
        assert(r[i].1 == onsets[i + 1] * HOP);
        assert(r[i + 1].0 == onsets[i + 1] * HOP);
    }
    assert forall|i: int| 0 <= i < r.len() implies #[trigger] r[i].0 < r[i].1 by {
        if i + 1 < onsets.len() {
            let a = onsets[i] as int;
            let b = onsets[i + 1] as int;
            assert(a * HOP < b * HOP) by (nonlinear_arith)
                requires
                    a < b,
            ;
        }
    }
    assert(r[r.len() - 1].1 == len);
}

} // verus!
