use vstd::arithmetic::div_mod::{
    lemma_div_by_multiple, lemma_div_is_ordered, lemma_div_pos_is_pos, lemma_fundamental_div_mod,
    lemma_mod_bound, lemma_small_mod,
};
use vstd::arithmetic::power2::{lemma2_to64, lemma_pow2_unfold, pow2};
use vstd::prelude::*;

verus! {

pub open spec fn clamp(x: int, lo: int, hi: int) -> int {
    if x < lo {
        lo
    } else if x > hi {
        hi
    } else {
        x
    }
}

/// Largest value of an unsigned sample of `p` bits.
pub open spec fn unsigned_max(p: nat) -> int {
    pow2(p) - 1
}

/// Integer division rounding toward zero.
pub open spec fn div_toward_zero(x: int, d: int) -> int {
    if x >= 0 {
        x / d
    } else {
        -((-x) / d)
    }
}

/// Rescales an unsigned sample of precision `p` to `t` bits:
/// `floor(s * (2^t - 1) / (2^p - 1))`, the sample's 32 bits read as unsigned
/// and the result kept to its low `t` bits. A sample in `[0, 2^p - 1]` thus
/// maps into `[0, 2^t - 1]` with no bits dropped.
pub open spec fn rescale_unsigned(s: int, p: nat, t: nat) -> int {
    ((s as u32) as int * unsigned_max(t) / unsigned_max(p)) % pow2(t) as int
}

/// Rescales a signed sample of precision `p` to `t` bits: the sample, held to
/// `[-2^(p-1), 2^(p-1) - 1]`, is scaled by `2^(t-1) / 2^(p-1)` (rounding
/// toward zero), biased by `2^(t-1) - 1`, and kept from going below zero.
pub open spec fn rescale_signed(s: int, p: nat, t: nat) -> int {
    let half = pow2((p - 1) as nat) as int;
    let v = div_toward_zero(clamp(s, -half, half - 1) * pow2((t - 1) as nat), half) + pow2(
        (t - 1) as nat,
    ) - 1;
    if v < 0 {
        0
    } else {
        v
    }
}

pub open spec fn rescale(s: int, p: nat, signed: bool, t: nat) -> int {
    if signed {
        rescale_signed(s, p, t)
    } else {
        rescale_unsigned(s, p, t)
    }
}

/// Computes `2^e`.
fn pow2_u64(e: u32) -> (r: u64)
    requires
        e < 64,
    ensures
        r as nat == pow2(e as nat),
{
    let mut r: u64 = 1;
    let mut i: u32 = 0;
    proof {
        assert(pow2(0) == 1) by { lemma2_to64(); }
    }
    while i < e
        invariant
            i <= e < 64,
            r as nat == pow2(i as nat),
        decreases e - i,
    {
        proof {
            lemma_pow2_unfold((i + 1) as nat);
            vstd::bits::lemma_u64_pow2_no_overflow((i + 1) as nat);
        }
        r = r * 2;
        i = i + 1;
    }
    r
}

proof fn lemma_small_pow2(e: nat)
    requires
        e <= 16,
    ensures
        1 <= pow2(e) <= 65536,
{
    lemma2_to64();
    vstd::arithmetic::power2::lemma_pow2_pos(e);
    if e < 16 {
        vstd::arithmetic::power2::lemma_pow2_strictly_increases(e, 16);
    }
}

/// Rescales one sample of precision `prec` to `bits` output bits.
pub fn rescale_sample(s: i32, prec: u32, signed: bool, bits: u32) -> (r: u16)
    requires
        1 <= prec <= 16,
        bits == 8 || bits == 16,
    ensures
        r as int == rescale(s as int, prec as nat, signed, bits as nat),
        r as int <= unsigned_max(bits as nat),
{
    proof {
        lemma_small_pow2(prec as nat);
        lemma_small_pow2((prec - 1) as nat);
        lemma_small_pow2(bits as nat);
        lemma_small_pow2((bits - 1) as nat);
        lemma_pow2_unfold(bits as nat);
        lemma_pow2_unfold(prec as nat);
    }
    if signed {
        let half = pow2_u64(prec - 1);
        let m = pow2_u64(bits - 1);
        let hi = half as i64;
        let sc: i64 = if (s as i64) < -hi {
            -hi
        } else if (s as i64) > hi - 1 {
            hi - 1
        } else {
            s as i64
        };
        let neg = sc < 0;
        let mag: u64 = if neg { (-sc) as u64 } else { sc as u64 };
        assert(mag * m <= 32768 * 32768) by (nonlinear_arith)
            requires mag <= 32768, m <= 32768;
        let q = mag * m / half;
        proof {
            lemma_div_pos_is_pos((mag * m) as int, half as int);
            lemma_fundamental_div_mod((mag * m) as int, half as int);
            lemma_mod_bound((mag * m) as int, half as int);
            assert(neg ==> (sc * m) as int == -((mag * m) as int)) by (nonlinear_arith)
                requires neg ==> mag == -sc;
            assert(!neg ==> (sc * m) as int == (mag * m) as int) by (nonlinear_arith)
                requires !neg ==> mag == sc;
            let x = (mag * m) as int;
            let h = half as int;
            let qq = q as int;
            let mm = m as int;
            let mg = mag as int;
            assert(x == h * qq + x % h);
            if !neg {
                // mag <= half - 1, so the quotient stays below m.
                assert(qq < mm) by (nonlinear_arith)
                    requires
                        x == h * qq + x % h,
                        0 <= x % h,
                        x == mg * mm,
                        mg <= h - 1,
                        h >= 1,
                        mm >= 1,
                ;
            } else {
                assert(qq <= mm) by (nonlinear_arith)
                    requires
                        x == h * qq + x % h,
                        0 <= x % h,
                        x == mg * mm,
                        mg <= h,
                        h >= 1,
                        mm >= 1,
                ;
            }
        }
        let v: i64 = if neg { (m as i64 - 1) - q as i64 } else { (m as i64 - 1) + q as i64 };
        if v < 0 {
            0
        } else {
            v as u16
        }
    } else {
        let smax = pow2_u64(prec) - 1;
        let tmax = pow2_u64(bits) - 1;
        let c = s as u32 as u64;
        assert(c * tmax <= 0xFFFF_FFFF * 65535) by (nonlinear_arith)
            requires c <= 0xFFFF_FFFF, tmax <= 65535;
        let q = c * tmax / smax;
        let r = q % (tmax + 1);
        proof {
            lemma_mod_bound(q as int, (tmax + 1) as int);
        }
        r as u16
    }
}

/// Unsigned rescaling keeps both ends of the range: zero maps to zero and the
/// largest sample of precision `p` maps to the largest value of `t` bits.
pub proof fn lemma_unsigned_rescale_endpoints(p: nat, t: nat)
    requires
        1 <= p <= 16,
        t == 8 || t == 16,
    ensures
        rescale_unsigned(0, p, t) == 0,
        rescale_unsigned(unsigned_max(p), p, t) == unsigned_max(t),
{
    lemma_small_pow2(p);
    lemma_small_pow2(t);
    lemma_pow2_unfold(p);
    lemma_pow2_unfold(t);
    assert((0int as u32) as int == 0);
    assert((unsigned_max(p) as u32) as int == unsigned_max(p));
    assert(0 * unsigned_max(t) == 0);
    lemma_small_mod(0, pow2(t));
    lemma_div_by_multiple(unsigned_max(t), unsigned_max(p));
    assert(unsigned_max(p) * unsigned_max(t) == unsigned_max(t) * unsigned_max(p)) by (nonlinear_arith);
    lemma_small_mod(unsigned_max(t) as nat, pow2(t));
}

proof fn lemma_div_toward_zero_monotonic(x: int, y: int, d: int)
    requires
        x <= y,
        d > 0,
    ensures
        div_toward_zero(x, d) <= div_toward_zero(y, d),
{
    if x >= 0 {
        lemma_div_is_ordered(x, y, d);
    } else if y >= 0 {
        lemma_div_pos_is_pos(-x, d);
        lemma_div_pos_is_pos(y, d);
    } else {
        lemma_div_is_ordered(-y, -x, d);
    }
}

/// Signed rescaling never reverses the order of two samples.
pub proof fn lemma_signed_rescale_monotonic(a: int, b: int, p: nat, t: nat)
    requires
        1 <= p <= 16,
        t == 8 || t == 16,
        a <= b,
    ensures
        rescale_signed(a, p, t) <= rescale_signed(b, p, t),
{
    lemma_small_pow2((p - 1) as nat);
    lemma_small_pow2((t - 1) as nat);
    let half = pow2((p - 1) as nat) as int;
    let m = pow2((t - 1) as nat) as int;
    let ca = clamp(a, -half, half - 1);
    let cb = clamp(b, -half, half - 1);
    assert(ca <= cb);
    assert(ca * m <= cb * m) by (nonlinear_arith)
        requires ca <= cb, m >= 0;
    lemma_div_toward_zero_monotonic(ca * m, cb * m, half);
}

/// Signed rescaling sends the source midpoint (zero) to `2^(t-1) - 1`, within
/// one of the target midpoint `(2^t - 1) / 2`.
pub proof fn lemma_signed_rescale_midpoint(p: nat, t: nat)
    requires
        1 <= p <= 16,
        t == 8 || t == 16,
    ensures
        rescale_signed(0, p, t) == pow2((t - 1) as nat) - 1,
        unsigned_max(t) - 2 <= 2 * rescale_signed(0, p, t) <= unsigned_max(t) + 2,
{
    lemma_small_pow2((p - 1) as nat);
    lemma_small_pow2((t - 1) as nat);
    lemma_pow2_unfold(t);
    let half = pow2((p - 1) as nat) as int;
    assert(0 * pow2((t - 1) as nat) == 0);
    assert(0int / half == 0);
}

} // verus!
