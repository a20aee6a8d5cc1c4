//! Exact fee rates and deterministic fee-rate bucketing.
//!
//! A fee rate is kept as a rational number (satoshis paid over virtual
//! bytes of transaction size) so that comparisons and bucket boundaries
//! are exact: two rates are compared by cross-multiplication, never by
//! rounding either side first.

use vstd::prelude::*;
use vstd::arithmetic::div_mod::{lemma_fundamental_div_mod, lemma_div_by_multiple};

verus! {

/// A nonnegative fee rate as an exact rational: `sats` satoshis paid per
/// `vbytes` virtual bytes. The denominator is always positive.
#[derive(Clone, Copy, PartialEq, Eq, Structural, Debug)]
pub struct FeeRate {
    pub sats: u64,
    pub vbytes: u64,
}

impl FeeRate {
    /// A fee rate is well formed when its denominator is positive.
    pub open spec fn wf(self) -> bool {
        self.vbytes >= 1
    }

    /// `self <= other` as rationals, by cross-multiplication:
    /// `a/b <= c/d  <=>  a*d <= c*b` for positive `b`, `d`.
    pub open spec fn spec_le(self, other: FeeRate) -> bool {
        self.sats * other.vbytes <= other.sats * self.vbytes
    }

    pub fn new(sats: u64, vbytes: u64) -> (r: FeeRate)
        requires
            vbytes >= 1,
        ensures
            r.wf(),
            r.sats == sats,
            r.vbytes == vbytes,
    {
        FeeRate { sats, vbytes }
    }

    /// Exact comparison of two fee rates, free of rounding.
    pub fn le(&self, other: &FeeRate) -> (r: bool)
        ensures
            r == self.spec_le(*other),
    {
        proof {
            assert((self.sats as int) * (other.vbytes as int) <= u64::MAX * u64::MAX)
                by (nonlinear_arith)
                requires
                    0 <= self.sats <= u64::MAX,
                    0 <= other.vbytes <= u64::MAX,
            ;
            assert((other.sats as int) * (self.vbytes as int) <= u64::MAX * u64::MAX)
                by (nonlinear_arith)
                requires
                    0 <= other.sats <= u64::MAX,
                    0 <= self.vbytes <= u64::MAX,
            ;
        }
        (self.sats as u128) * (other.vbytes as u128)
            <= (other.sats as u128) * (self.vbytes as u128)
    }
}

/// The quantized index of a fee rate: the mathematical floor of
/// `rate / width`. For a rational rate `sats / vbytes` and an integer
/// width this is exactly `sats / (vbytes * width)` in integer division.
pub open spec fn spec_bucket_index(rate: FeeRate, width: u64) -> int {
    rate.sats as int / (rate.vbytes as int * width as int)
}

/// The bucket identifier of a fee rate: `floor(rate / width) * width`.
pub open spec fn spec_bucket_of(rate: FeeRate, width: u64) -> int {
    spec_bucket_index(rate, width) * width
}

/// Quantize a fee rate into its bucket identifier.
pub fn bucket_of(rate: &FeeRate, width: u64) -> (b: u64)
    requires
        rate.wf(),
        width >= 1,
    ensures
        b as int == spec_bucket_of(*rate, width),
{
    proof {
        assert(width as int <= rate.vbytes as int * width as int
            && 1 <= rate.vbytes as int * width as int
            && rate.vbytes as int * width as int <= u64::MAX * u64::MAX)
            by (nonlinear_arith)
            requires
                1 <= rate.vbytes <= u64::MAX,
                1 <= width <= u64::MAX,
        ;
    }
    let denom: u128 = (rate.vbytes as u128) * (width as u128);
    let k: u128 = (rate.sats as u128) / denom;
    proof {
        let s = rate.sats as int;
        let d = denom as int;
        let w = width as int;
        lemma_fundamental_div_mod(s, d);
        assert((s / d) * w <= s) by (nonlinear_arith)
            requires
                0 <= s,
                1 <= w <= d,
                d * (s / d) + s % d == s,
                0 <= s % d,
                0 <= s / d,
        ;
    }
    let b: u128 = k * (width as u128);
    b as u64
}

/// Bucketing determinism: two fee rates share a bucket exactly when their
/// quantized indices `floor(rate / width)` agree. In particular, bucket
/// identifiers are equal only by sharing the quantized value, never by
/// accident of rounding.
pub proof fn lemma_bucketing_deterministic(r1: FeeRate, r2: FeeRate, width: u64)
    requires
        r1.wf(),
        r2.wf(),
        width >= 1,
    ensures
        spec_bucket_index(r1, width) == spec_bucket_index(r2, width)
            <==> spec_bucket_of(r1, width) == spec_bucket_of(r2, width),
{
    let k1 = spec_bucket_index(r1, width);
    let k2 = spec_bucket_index(r2, width);
    if spec_bucket_of(r1, width) == spec_bucket_of(r2, width) {
        assert(k1 == k2) by (nonlinear_arith)
            requires
                k1 * width == k2 * width,
                width >= 1,
        ;
    }
}

/// Boundary behavior: a fee rate lying exactly on a bucket boundary
/// `k * width` falls into the bucket named `k * width`, not the one below.
pub proof fn lemma_bucket_boundary(k: u64, width: u64, vbytes: u64)
    requires
        width >= 1,
        vbytes >= 1,
        k * width * vbytes <= u64::MAX,
    ensures
        spec_bucket_of((FeeRate { sats: (k * width * vbytes) as u64, vbytes }), width)
            == k * width,
{
    let r = FeeRate { sats: (k * width * vbytes) as u64, vbytes };
    let d = vbytes as int * width as int;
    assert(1 <= d && r.sats as int == k as int * d) by (nonlinear_arith)
        requires
            1 <= vbytes,
            1 <= width,
            d == vbytes as int * width as int,
            r.sats == k * width * vbytes,
    ;
    lemma_div_by_multiple(k as int, d);
    assert(spec_bucket_index(r, width) == k);
}

} // verus!
