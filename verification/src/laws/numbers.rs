//! Bit patterns stand for the decimals that the rules speak of.
use vstd::arithmetic::power2::{
    lemma2_to64, lemma2_to64_rest, lemma_pow2_adds, lemma_pow2_pos, lemma_pow2_strictly_increases,
    lemma_pow2_unfold, pow2,
};
use vstd::prelude::*;

use crate::api::alerts::{FULL_CIRCLE, MAX_RADIUS_ARCSEC, MAX_SPAN_JD, NORTH_POLE, SOUTH_POLE};
use crate::binary::{bit_length, pattern_of, significand, Double, Single, DOUBLE_SIGN};
use crate::enrichment::babamul::{LSST_MIN_RELIABILITY, ZTF_HOSTED_SG_SCORE_THRESH, ZTF_MIN_DRB};
use crate::utils::host::associate::{DEFAULT_MAX_OFFSET, DEFAULT_MIN_B};
use crate::utils::host::catalog::{ABSENT_REDSHIFT, UNITY};
use crate::utils::host::config::{
    DEFAULT_ISOPHOTE_MAG, DEFAULT_MAX_DLR, DEFAULT_MIN_AXIS, DEFAULT_PINNED_AXIS_RATIO,
    DEFAULT_REX_MAX_FRACFLUX, DEFAULT_REX_MIN_SHAPE_R, DEFAULT_REX_MIN_SNR,
};
use crate::utils::host::dlr::{HALF_CIRCLE, MINUS_HALF_CIRCLE, NO_LENGTH};
use crate::utils::host::likelihood::{NO_EVIDENCE, OFFSET_LIKELIHOOD_AT_ZERO};
use crate::utils::host::prior::{P_HOSTLESS, P_OUTSIDE, P_OUTSIDE_ALONE, P_UNOBSERVED};
use crate::utils::lightcurves::{
    MIN_SPAN, MIN_TIME_SPREAD, RECENT_WINDOW_DAYS, RECENT_WINDOW_DAYS_SINGLE,
};
use crate::utils::spatial::{COINCIDENT_ARCSEC, NEARBY_REDSHIFT, NO_PROJECTED_DISTANCE};

verus! {

/// Whether a positive double is the one nearest to `n / d`: its 53 digits times `d` are
/// within half a unit of `n` shifted by its exponent.
pub open spec fn nearest(bits: int, n: int, d: int) -> bool {
    let exponent = bits / 0x10_0000_0000_0000;
    let digits = bits % 0x10_0000_0000_0000 + 0x10_0000_0000_0000;
    let scaled = n * pow2((1075 - exponent) as nat);
    0 < exponent <= 1075 && -d <= 2 * (digits * d - scaled) <= d
}

/// Whether a positive single is the one nearest to `n / d`.
pub open spec fn nearest_single(bits: int, n: int, d: int) -> bool {
    let exponent = bits / 0x80_0000;
    let digits = bits % 0x80_0000 + 0x80_0000;
    let scaled = n * pow2((150 - exponent) as nat);
    0 < exponent <= 150 && -d <= 2 * (digits * d - scaled) <= d
}

/// The limits of queries are a radius of 600 arcseconds, a span of one day, and the bounds of
/// the sky.
pub proof fn the_limits_of_queries()
    ensures
        nearest(MAX_RADIUS_ARCSEC as int, 600, 1),
        nearest(MAX_SPAN_JD as int, 1, 1),
        nearest(FULL_CIRCLE as int, 360, 1),
        nearest(NORTH_POLE as int, 90, 1),
        nearest(SOUTH_POLE - DOUBLE_SIGN, 90, 1),
{
    lemma2_to64();
    lemma2_to64_rest();
}

/// An alert of ZTF is shared from a score of 0.2, one of LSST from 0, and a source up to a
/// score of 0.5 is a galaxy.
pub proof fn the_limits_of_sharing()
    ensures
        nearest_single(ZTF_MIN_DRB as int, 2, 10),
        nearest_single(ZTF_HOSTED_SG_SCORE_THRESH as int, 1, 2),
        LSST_MIN_RELIABILITY == 0,
{
    lemma2_to64();
}

/// Light curves are fit over more than a hundredth of a day, and the recent window is 30
/// days.
pub proof fn the_limits_of_light_curves()
    ensures
        nearest(MIN_SPAN as int, 1, 100),
        nearest(RECENT_WINDOW_DAYS as int, 30, 1),
        nearest_single(RECENT_WINDOW_DAYS_SINGLE as int, 30, 1),
        nearest_single(MIN_TIME_SPREAD as int, 1, 10_000_000_000),
{
    lemma2_to64();
    lemma2_to64_rest();
}

/// A crossmatch takes an arcsecond as coincident and a redshift below 0.005 as nearby, and
/// marks the latter by -1.
pub proof fn the_limits_of_crossmatches()
    ensures
        nearest(COINCIDENT_ARCSEC as int, 1, 1),
        nearest(NEARBY_REDSHIFT as int, 5, 1000),
        nearest(NO_PROJECTED_DISTANCE - DOUBLE_SIGN, 1, 1),
{
    lemma2_to64();
    lemma2_to64_rest();
}

/// The numbers of the host association.
pub proof fn the_limits_of_host_associations()
    ensures
        nearest(UNITY as int, 1, 1),
        nearest(NO_EVIDENCE as int, 1, 1),
        nearest(ABSENT_REDSHIFT - DOUBLE_SIGN, 1, 2),
        nearest(NO_LENGTH as int, 1, 1_000_000_000_000_000),
        nearest(HALF_CIRCLE as int, 180, 1),
        nearest(MINUS_HALF_CIRCLE - DOUBLE_SIGN, 180, 1),
        nearest(DEFAULT_MAX_OFFSET as int, 10, 1),
        nearest(DEFAULT_MIN_B as int, 5, 100),
        nearest(DEFAULT_MAX_DLR as int, 5, 1),
        nearest(DEFAULT_MIN_AXIS as int, 5, 100),
        nearest(DEFAULT_PINNED_AXIS_RATIO as int, 1, 10),
        nearest(DEFAULT_REX_MIN_SHAPE_R as int, 3, 10),
        nearest(DEFAULT_REX_MIN_SNR as int, 5, 1),
        nearest(DEFAULT_REX_MAX_FRACFLUX as int, 1, 2),
        nearest(DEFAULT_ISOPHOTE_MAG as int, 25, 1),
        nearest(OFFSET_LIKELIHOOD_AT_ZERO as int, 1_000_000, 1),
        nearest(P_OUTSIDE_ALONE as int, 1, 2),
        nearest(P_OUTSIDE as int, 1, 100),
        nearest(P_UNOBSERVED as int, 1, 100),
        nearest(P_HOSTLESS as int, 5, 1000),
{
    lemma2_to64();
    lemma2_to64_rest();
    lemma_pow2_adds(51, 51);
}

/// Doubles are compared as numbers: what is not a number compares with nothing, the two zeros
/// are equal, of two numbers of one sign the patterns tell, the other way round where both are
/// negative, and a negative one is less than one that is not.
pub proof fn doubles_are_compared_as_numbers(
    a: Double,
    b: Double,
    less: bool,
    at_most: bool,
    equal: bool,
    nan: bool,
    finite: bool,
)
    requires
        call_ensures(Double::lt, (a, b), less),
        call_ensures(Double::le, (a, b), at_most),
        call_ensures(Double::same, (a, b), equal),
        call_ensures(Double::is_nan, (a,), nan),
        call_ensures(Double::is_finite, (a,), finite),
    ensures
        ({
            let half = 0x8000_0000_0000_0000int;
            let top = 0x7FF0_0000_0000_0000int;
            let x = a.bits as int % half;
            let y = b.bits as int % half;
            let below = a.bits >= half;
            let under = b.bits >= half;
            &&& nan <==> x > top
            &&& finite <==> x < top
            &&& x > top || y > top ==> !less && !at_most && !equal
            &&& x <= top && y <= top ==> {
                &&& equal <==> a.bits == b.bits || (x == 0 && y == 0)
                &&& at_most <==> less || equal
                &&& !below && !under ==> (less <==> x < y)
                &&& below && under ==> (less <==> y < x)
                &&& below && !under ==> (less <==> x > 0 || y > 0)
                &&& !below && under ==> !less
            }
        }),
{
}

/// Singles are compared in the same way.
pub proof fn singles_are_compared_as_numbers(
    a: Single,
    b: Single,
    less: bool,
    at_most: bool,
    nan: bool,
    finite: bool,
)
    requires
        call_ensures(Single::lt, (a, b), less),
        call_ensures(Single::le, (a, b), at_most),
        call_ensures(Single::is_nan, (a,), nan),
        call_ensures(Single::is_finite, (a,), finite),
    ensures
        ({
            let half = 0x8000_0000int;
            let top = 0x7F80_0000int;
            let x = a.bits as int % half;
            let y = b.bits as int % half;
            let below = a.bits >= half;
            let under = b.bits >= half;
            &&& nan <==> x > top
            &&& finite <==> x < top
            &&& x > top || y > top ==> !less && !at_most
            &&& x <= top && y <= top ==> {
                &&& at_most <==> less || a.bits == b.bits || (x == 0 && y == 0)
                &&& !below && !under ==> (less <==> x < y)
                &&& below && under ==> (less <==> y < x)
                &&& below && !under ==> (less <==> x > 0 || y > 0)
                &&& !below && under ==> !less
            }
        }),
{
}

/// The smaller and the greater of two numbers are those two, in their order. Where one is not
/// a number, both are the other.
pub proof fn one_of_two_is_the_greater(a: Double, b: Double, smaller: Double, greater: Double)
    requires
        call_ensures(Double::min, (a, b), smaller),
        call_ensures(Double::max, (a, b), greater),
    ensures
        smaller == a || smaller == b,
        greater == a || greater == b,
        !a.is_nan_spec() && !b.is_nan_spec() ==> smaller.at_most(a) && smaller.at_most(b)
            && a.at_most(greater) && b.at_most(greater),
        a.is_nan_spec() ==> smaller == b && greater == b,
        b.is_nan_spec() && !a.is_nan_spec() ==> smaller == a && greater == a,
{
}

/// The total order goes by the numbers, puts the negative zero before the other, and tells
/// every two patterns apart.
pub proof fn the_total_order_goes_by_the_numbers(a: Double, b: Double, x: i64, y: i64)
    requires
        call_ensures(Double::total_place, (a,), x),
        call_ensures(Double::total_place, (b,), y),
    ensures
        a.less(b) ==> x < y,
        x == y <==> a == b,
        a.bits == 0x8000_0000_0000_0000 && b.bits == 0 ==> x < y,
{
}

proof fn lemma_length(n: nat)
    requires
        n > 0,
    ensures
        bit_length(n) > 0,
        pow2((bit_length(n) - 1) as nat) <= n < pow2(bit_length(n)),
    decreases n,
{
    lemma2_to64();
    reveal_with_fuel(bit_length, 2);
    if n > 1 {
        lemma_length(n / 2);
        lemma_pow2_unfold(bit_length(n));
        lemma_pow2_unfold(bit_length(n / 2));
    }
}

/// An integer of up to 53 binary digits is itself as a double: the digits of the pattern,
/// scaled by its exponent, are the integer. A negative one has the sign.
pub proof fn small_integers_are_doubles(n: i64, x: Double)
    requires
        call_ensures(Double::from_i64, (n,), x),
        -0x20_0000_0000_0000 < n < 0x20_0000_0000_0000,
    ensures
        n == 0 ==> x.bits == 0,
        n > 0 ==> nearest(x.bits as int, n as int, 1),
        n < 0 ==> x.bits >= DOUBLE_SIGN && nearest(x.bits - DOUBLE_SIGN, -n as int, 1),
{
    if n != 0 {
        let m = if n > 0 {
            n as nat
        } else {
            (-n) as nat
        };
        lemma_pattern(m);
    }
}

proof fn lemma_pattern(m: nat)
    requires
        0 < m < 0x20_0000_0000_0000,
    ensures
        nearest(pattern_of(m), m as int, 1),
        0 <= pattern_of(m) < DOUBLE_SIGN,
{
    lemma2_to64();
    lemma2_to64_rest();
    lemma_length(m);
    let length = bit_length(m);
    if length > 53 {
        if length > 54 {
            lemma_pow2_strictly_increases(53, (length - 1) as nat);
        }
    }
    let shift = (53 - length) as nat;
    lemma_pow2_adds((length - 1) as nat, shift);
    lemma_pow2_adds(length, shift);
    lemma_pow2_pos(shift);
    let p = pow2(shift);
    let low = pow2((length - 1) as nat);
    let high = pow2(length);
    assert(low * p <= m * p && m * p < high * p) by (nonlinear_arith)
        requires
            low <= m,
            m < high,
            p > 0,
    ;
    let digits = significand(m);
    assert(digits == m * p);
    assert(0x10_0000_0000_0000 <= digits < 0x20_0000_0000_0000);
    let bits = pattern_of(m);
    let exponent = 1022 + length;
    assert(bits == exponent * 0x10_0000_0000_0000 + (digits - 0x10_0000_0000_0000));
    assert(bits / 0x10_0000_0000_0000 == exponent);
    assert(bits % 0x10_0000_0000_0000 == digits - 0x10_0000_0000_0000);
    assert((1075 - exponent) as nat == shift);
}

}
