//! Laws of the blending strategies, stated and proved over the same spec
//! functions that the executable contracts use.

use crate::blend::{
    lemma_contribution_nonneg, lemma_sum_contrib_nonneg, spec_contribution, spec_max_pixel,
    spec_weighted_pixel, sum_channel, sum_contrib,
};
use crate::frame::{frame_pixel, LoadedFrame};
use crate::pixel::Pixel;
use vstd::arithmetic::div_mod::{lemma_div_denominator, lemma_div_multiples_vanish};
use vstd::prelude::*;

verus! {

/// Max-Light monotonicity: every channel of the Max-Light result is at least
/// the corresponding channel of every input frame's pixel at that coordinate.
pub proof fn lemma_max_light_monotone(frames: Seq<LoadedFrame>, idx: int, k: int, c: int)
    requires
        0 <= k < frames.len(),
        0 <= c < 4,
    ensures
        spec_max_pixel(frames, idx).channel(c) >= frame_pixel(frames[k], idx).channel(c),
    decreases frames.len(),
{
    if k < frames.len() - 1 {
        lemma_max_light_monotone(frames.drop_last(), idx, k, c);
    }
}

/// The same frames with every weight multiplied by `k`.
pub open spec fn scale_weights(frames: Seq<LoadedFrame>, k: int) -> Seq<LoadedFrame> {
    Seq::new(
        frames.len(),
        |i: int|
            LoadedFrame {
                image: frames[i].image,
                weight: (k * frames[i].weight) as u32,
            },
    )
}

/// Scaling every weight by a positive `k` scales both accumulated sums by `k`.
proof fn lemma_sums_scale(frames: Seq<LoadedFrame>, idx: int, k: int, c: int)
    requires
        k > 0,
        forall|i: int| 0 <= i < frames.len() ==> k * (#[trigger] frames[i]).weight <= u32::MAX,
    ensures
        sum_contrib(scale_weights(frames, k), idx) == k * sum_contrib(frames, idx),
        sum_channel(scale_weights(frames, k), idx, c) == k * sum_channel(frames, idx, c),
    decreases frames.len(),
{
    let scaled = scale_weights(frames, k);
    if frames.len() == 0 {
        assert(scaled =~= Seq::<LoadedFrame>::empty());
        assert(k * 0 == 0) by (nonlinear_arith);
    } else {
        lemma_sums_scale(frames.drop_last(), idx, k, c);
        assert(scale_weights(frames.drop_last(), k) =~= scaled.drop_last());
        let f = frames.last();
        let p = frame_pixel(f, idx);
        let w = f.weight as int;
        assert(scaled.last().image == f.image && scaled.last().weight == (k * w) as u32);
        assert(0 <= k * w <= u32::MAX) by (nonlinear_arith)
            requires
                k > 0,
                0 <= w,
                k * w <= u32::MAX,
        ;
        assert(spec_contribution((k * w) as u32 as int, p) == k * spec_contribution(w, p))
            by (nonlinear_arith)
            requires
                (k * w) as u32 as int == k * w,
                spec_contribution((k * w) as u32 as int, p) == ((k * w) as u32 as int) * p.a
                    * crate::blend::spec_emphasis(p),
                spec_contribution(w, p) == w * p.a * crate::blend::spec_emphasis(p),
        ;
        assert(sum_contrib(scaled, idx) == k * sum_contrib(frames.drop_last(), idx) + k
            * spec_contribution(w, p));
        assert(k * sum_contrib(frames, idx) == k * (sum_contrib(frames.drop_last(), idx)
            + spec_contribution(w, p)));
        assert(k * (sum_contrib(frames.drop_last(), idx) + spec_contribution(w, p)) == k
            * sum_contrib(frames.drop_last(), idx) + k * spec_contribution(w, p))
            by (nonlinear_arith);
        assert(spec_contribution((k * w) as u32 as int, p) * p.channel(c) == k * (
        spec_contribution(w, p) * p.channel(c))) by (nonlinear_arith)
            requires
                spec_contribution((k * w) as u32 as int, p) == k * spec_contribution(w, p),
        ;
        assert(sum_channel(scaled, idx, c) == k * sum_channel(frames.drop_last(), idx, c) + k * (
        spec_contribution(w, p) * p.channel(c)));
        assert(k * sum_channel(frames, idx, c) == k * (sum_channel(frames.drop_last(), idx, c)
            + spec_contribution(w, p) * p.channel(c)));
        assert(k * (sum_channel(frames.drop_last(), idx, c) + spec_contribution(w, p) * p.channel(
            c,
        )) == k * sum_channel(frames.drop_last(), idx, c) + k * (spec_contribution(w, p)
            * p.channel(c))) by (nonlinear_arith);
    }
}

/// A scaled-over-scaled quotient loses the common factor: `(k*s)/(k*q) == s/q`.
proof fn lemma_scaled_quotient(s: int, q: int, k: int)
    requires
        0 <= s,
        0 < q,
        0 < k,
    ensures
        (k * s) / (k * q) == s / q,
{
    assert(0 <= k * s) by (nonlinear_arith)
        requires
            0 <= s,
            0 < k,
    ;
    lemma_div_denominator(k * s, k, q);
    lemma_div_multiples_vanish(s, k);
}

/// Weight normalization: scaling every input weight by a positive constant
/// `k` leaves the Weighted-Brightness result unchanged, because the weights
/// only enter the output through the normalized quotient.
pub proof fn lemma_weight_scale_invariance(frames: Seq<LoadedFrame>, idx: int, k: int)
    requires
        k > 0,
        forall|i: int| 0 <= i < frames.len() ==> k * (#[trigger] frames[i]).weight <= u32::MAX,
    ensures
        spec_weighted_pixel(scale_weights(frames, k), idx) == spec_weighted_pixel(frames, idx),
{
    let scaled = scale_weights(frames, k);
    lemma_sums_scale(frames, idx, k, 0);
    lemma_sums_scale(frames, idx, k, 1);
    lemma_sums_scale(frames, idx, k, 2);
    lemma_sums_scale(frames, idx, k, 3);
    let q = sum_contrib(frames, idx);
    lemma_sum_contrib_nonneg(frames, idx);
    if q == 0 {
        assert(k * 0 == 0) by (nonlinear_arith);
    } else {
        assert(k * q > 0) by (nonlinear_arith)
            requires
                k > 0,
                q > 0,
        ;
        crate::blend::lemma_sum_channel_bounds(frames, idx, 0);
        crate::blend::lemma_sum_channel_bounds(frames, idx, 1);
        crate::blend::lemma_sum_channel_bounds(frames, idx, 2);
        crate::blend::lemma_sum_channel_bounds(frames, idx, 3);
        lemma_scaled_quotient(sum_channel(frames, idx, 0), q, k);
        lemma_scaled_quotient(sum_channel(frames, idx, 1), q, k);
        lemma_scaled_quotient(sum_channel(frames, idx, 2), q, k);
        lemma_scaled_quotient(sum_channel(frames, idx, 3), q, k);
    }
}

/// Single-frame identity for Max-Light: composing one frame returns that
/// frame's pixel with the alpha forced fully opaque.
pub proof fn lemma_single_frame_max_light(f: LoadedFrame, idx: int)
    ensures
        spec_max_pixel(seq![f], idx) == (Pixel {
            r: frame_pixel(f, idx).r,
            g: frame_pixel(f, idx).g,
            b: frame_pixel(f, idx).b,
            a: 255,
        }),
{
    let s = seq![f];
    assert(s.drop_last() =~= Seq::<LoadedFrame>::empty());
    assert(s.last() == f);
    assert(spec_max_pixel(Seq::<LoadedFrame>::empty(), idx) == (Pixel {
        r: 0,
        g: 0,
        b: 0,
        a: 255,
    }));
}

/// Single-frame identity for Weighted-Brightness: composing one frame whose
/// pixel actually contributes (positive weight, alpha and brightness) returns
/// that pixel unchanged. A pixel with zero contribution — transparent, or too
/// dark for any emphasis — comes back as transparent black instead.
pub proof fn lemma_single_frame_weighted(f: LoadedFrame, idx: int)
    requires
        spec_contribution(f.weight as int, frame_pixel(f, idx)) > 0,
    ensures
        spec_weighted_pixel(seq![f], idx) == frame_pixel(f, idx),
{
    let s = seq![f];
    assert(s.drop_last() =~= Seq::<LoadedFrame>::empty());
    assert(s.last() == f);
    let p = frame_pixel(f, idx);
    let q = spec_contribution(f.weight as int, p);
    assert(sum_contrib(Seq::<LoadedFrame>::empty(), idx) == 0);
    assert(sum_channel(Seq::<LoadedFrame>::empty(), idx, 0) == 0);
    assert(sum_channel(Seq::<LoadedFrame>::empty(), idx, 1) == 0);
    assert(sum_channel(Seq::<LoadedFrame>::empty(), idx, 2) == 0);
    assert(sum_channel(Seq::<LoadedFrame>::empty(), idx, 3) == 0);
    assert(sum_contrib(s, idx) == q);
    assert(sum_channel(s, idx, 0) == q * p.channel(0));
    assert(sum_channel(s, idx, 1) == q * p.channel(1));
    assert(sum_channel(s, idx, 2) == q * p.channel(2));
    assert(sum_channel(s, idx, 3) == q * p.channel(3));
    lemma_div_multiples_vanish(p.channel(0) as int, q);
    lemma_div_multiples_vanish(p.channel(1) as int, q);
    lemma_div_multiples_vanish(p.channel(2) as int, q);
    lemma_div_multiples_vanish(p.channel(3) as int, q);
}

} // verus!
