use vstd::prelude::*;

verus! {

/// Number of min/max pairs the waveform view keeps of a sample.
pub const WAVE_PTS: usize = 2048;

/// Samples `i * len / WAVE_PTS ..` up to `(i + 1) * len / WAVE_PTS` (at most
/// `len`) make up bucket `i` of the waveform view.
pub open spec fn bucket(i: int, len: int) -> (int, int) {
    (i * len / WAVE_PTS as int, (i + 1) * len / WAVE_PTS as int)
}

proof fn lemma_bucket_bounds(i: int, len: int)
    requires
        0 <= i < WAVE_PTS,
        0 <= len,
    ensures
        0 <= bucket(i, len).0 <= bucket(i, len).1 <= len,
{
    let w = WAVE_PTS as int;
    assert(0 <= i * len <= (i + 1) * len <= w * len) by (nonlinear_arith)
        requires
            0 <= i < w,
            0 <= len,
    ;
    vstd::arithmetic::div_mod::lemma_div_is_ordered(i * len, (i + 1) * len, w);
    vstd::arithmetic::div_mod::lemma_div_is_ordered((i + 1) * len, w * len, w);
    vstd::arithmetic::div_mod::lemma_div_pos_is_pos(i * len, w);
    assert(w * len / w == len) by {
        vstd::arithmetic::div_mod::lemma_div_multiples_vanish(len, w);
    }
}

/// The sample range of bucket `i` of the waveform view of `len` samples.
pub fn peak_bucket(i: usize, len: usize) -> (r: (usize, usize))
    requires
        i < WAVE_PTS,
        len <= usize::MAX / WAVE_PTS,
    ensures
        r.0 == bucket(i as int, len as int).0,
        r.1 == bucket(i as int, len as int).1,
        r.0 <= r.1 <= len,
{
    proof {
        lemma_bucket_bounds(i as int, len as int);
        assert((i + 1) * len <= WAVE_PTS * len) by (nonlinear_arith)
            requires
                i < WAVE_PTS,
        ;
        assert(WAVE_PTS * len <= usize::MAX) by (nonlinear_arith)
            requires
                len <= usize::MAX / WAVE_PTS,
        ;
    }
    let a = i * len / WAVE_PTS;
    let b = (i + 1) * len / WAVE_PTS;
    let b = if b < len { b } else { len };
    (a, b)
}

/// The buckets of the waveform view cover the sample back to back, from its
/// first sample to its last.
pub proof fn lemma_buckets_tile(len: int)
    requires
        0 <= len,
    ensures
        bucket(0, len).0 == 0,
        bucket(WAVE_PTS as int - 1, len).1 == len,
        forall|i: int| 0 <= i < WAVE_PTS - 1 ==> #[trigger] bucket(i, len).1 == bucket(i + 1, len).0,
        forall|i: int| 0 <= i < WAVE_PTS ==> 0 <= #[trigger] bucket(i, len).0 <= bucket(i, len).1 <= len,
{
    assert forall|i: int| 0 <= i < WAVE_PTS implies 0 <= #[trigger] bucket(i, len).0 <= bucket(i, len).1
        <= len by {
        lemma_bucket_bounds(i, len);
    }
    vstd::arithmetic::div_mod::lemma_div_multiples_vanish(len, WAVE_PTS as int);
}

/// The bucket shown in column `x` of a view `w` columns wide.
pub fn peak_column(x: usize, w: usize) -> (pi: usize)
    requires
        w > 0,
        x <= usize::MAX / WAVE_PTS,
    ensures
        pi == (if (x * WAVE_PTS) as int / (w as int) < WAVE_PTS {
            (x * WAVE_PTS) as int / (w as int)
        } else {
            WAVE_PTS - 1
        }),
        pi < WAVE_PTS,
{
    assert(x * WAVE_PTS <= usize::MAX) by (nonlinear_arith)
        requires
            x <= usize::MAX / WAVE_PTS,
    ;
    let p = x * WAVE_PTS / w;
    if p < WAVE_PTS {
        p
    } else {
        WAVE_PTS - 1
    }
}

} // verus!
