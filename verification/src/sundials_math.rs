use vstd::prelude::*;
use vstd::std_specs::cmp::PartialOrdSpec;
use vstd::arithmetic::power2::pow2;

verus! {

/// The smaller of two values: `a` when `a < b`, else `b` (so `b` on a tie
/// or when the two are unordered). The result is always one of the two.
pub fn SUNMIN<T: PartialOrd>(a: T, b: T) -> (r: T)
    ensures
        r == a || r == b,
        T::obeys_partial_cmp_spec() ==> r == if a.partial_cmp_spec(&b) == Some(
            std::cmp::Ordering::Less,
        ) {
            a
        } else {
            b
        },
{
    if a < b {
        a
    } else {
        b
    }
}

/// The larger of two values: `a` when `a > b`, else `b` (so `b` on a tie
/// or when the two are unordered). The result is always one of the two.
pub fn SUNMAX<T: PartialOrd>(a: T, b: T) -> (r: T)
    ensures
        r == a || r == b,
        T::obeys_partial_cmp_spec() ==> r == if a.partial_cmp_spec(&b) == Some(
            std::cmp::Ordering::Greater,
        ) {
            a
        } else {
            b
        },
{
    if a > b {
        a
    } else {
        b
    }
}

/// `base` to the power `exp`, with an exponent below one counting as zero.
pub open spec fn ipow(base: int, exp: int) -> int
    decreases exp,
{
    if exp <= 0 {
        1
    } else {
        base * ipow(base, exp - 1)
    }
}

proof fn lemma_ipow_abs_grows(base: int, k: int, e: int)
    requires
        0 <= k <= e,
        base * base >= 4,
    ensures
        k < e ==> 2 * abs_int(ipow(base, k)) <= abs_int(ipow(base, e)),
        abs_int(ipow(base, k)) <= abs_int(ipow(base, e)),
    decreases e - k,
{
    if k < e {
        lemma_ipow_abs_grows(base, k, e - 1);
        let p = ipow(base, e - 1);
        assert(abs_int(base * p) == abs_int(base) * abs_int(p)) by (nonlinear_arith);
        assert(abs_int(base) >= 2) by (nonlinear_arith)
            requires
                base * base >= 4,
        ;
        assert(abs_int(base) * abs_int(p) >= 2 * abs_int(p)) by (nonlinear_arith)
            requires
                abs_int(base) >= 2,
                abs_int(p) >= 0,
        ;
    }
}

pub open spec fn abs_int(x: int) -> int {
    if x < 0 {
        -x
    } else {
        x
    }
}

proof fn lemma_ipow_small_base(base: int, k: int)
    requires
        -1 <= base <= 1,
        0 <= k,
    ensures
        -1 <= ipow(base, k) <= 1,
    decreases k,
{
    if k > 0 {
        lemma_ipow_small_base(base, k - 1);
        let p = ipow(base, k - 1);
        assert(-1 <= base * p <= 1) by (nonlinear_arith)
            requires
                -1 <= base <= 1,
                -1 <= p <= 1,
        ;
    }
}

/// Integer power `base^exponent` by repeated multiplication; an exponent
/// below one gives one. The power must fit in an `i32`, and the loop
/// counter must be able to pass the exponent.
pub fn SUNIpowerI(base: i32, exponent: i32) -> (prod: i32)
    requires
        exponent < i32::MAX,
        i32::MIN <= ipow(base as int, exponent as int) <= i32::MAX,
    ensures
        prod == ipow(base as int, exponent as int),
{
    let mut prod: i32 = 1;
    let mut i: i32 = 1;
    proof {
        if exponent >= 1 && (base as int) * (base as int) >= 4 {
            lemma_ipow_abs_grows(base as int, 0, exponent as int);
        }
    }
    while i <= exponent
        invariant
            1 <= i,
            exponent >= 1 ==> i <= exponent + 1,
            exponent < 1 ==> i == 1,
            exponent < i32::MAX,
            prod == ipow(base as int, i - 1),
            i32::MIN <= ipow(base as int, exponent as int) <= i32::MAX,
        decreases exponent - i + 1,
    {
        proof {
            if (base as int) * (base as int) >= 4 {
                lemma_ipow_abs_grows(base as int, i as int, exponent as int);
            } else {
                assert(-1 <= base <= 1) by (nonlinear_arith)
                    requires
                        (base as int) * (base as int) < 4,
                ;
                lemma_ipow_small_base(base as int, i as int);
            }
            assert(ipow(base as int, i as int) == base * ipow(base as int, i - 1));
        }
        prod = prod * base;
        i = i + 1;
    }
    proof {
        if exponent < 1 {
            assert(i == 1);
        }
    }
    prod
}

/// The exponent field of an IEEE double's bit pattern.
pub open spec fn exp_bits(ix: u64) -> u64 {
    (ix >> 52) & 0x7ff
}

/// The fraction field of an IEEE double's bit pattern.
pub open spec fn frac_bits(ix: u64) -> u64 {
    ix & 0xf_ffff_ffff_ffff
}

/// The bit pattern is a signaling NaN: all exponent bits set, the quiet
/// bit clear, and a nonzero payload.
pub fn pow_issignaling(ix: u64) -> (r: bool)
    ensures
        r == (exp_bits(ix) == 0x7ff && frac_bits(ix) & 0x8_0000_0000_0000 == 0 && frac_bits(ix)
            != 0),
{
    let r = (ix & 0x7ff8000000000000) == 0x7ff0000000000000 && (ix & 0x0007ffffffffffff) != 0;
    assert(r == (((ix >> 52) & 0x7ff) == 0x7ff && (ix & 0xf_ffff_ffff_ffff) & 0x8_0000_0000_0000
        == 0 && (ix & 0xf_ffff_ffff_ffff) != 0)) by (bit_vector)
        requires
            r == ((ix & 0x7ff8000000000000) == 0x7ff0000000000000 && (ix & 0x0007ffffffffffff) != 0),
    ;
    r
}

/// The bit pattern is that of a zero, an infinity or a NaN (of either
/// sign): the exponent field is all zeros with a zero fraction, or all
/// ones.
pub fn pow_zeroinfnan(i: u64) -> (r: bool)
    ensures
        r == ((exp_bits(i) == 0 && frac_bits(i) == 0) || exp_bits(i) == 0x7ff),
{
    let r = i.wrapping_mul(2).wrapping_sub(1) >= 0x7ff0000000000000u64.wrapping_mul(2).wrapping_sub(
        1,
    );
    assert(r == ((((i >> 52) & 0x7ff) == 0 && (i & 0xf_ffff_ffff_ffff) == 0) || ((i >> 52) & 0x7ff)
        == 0x7ff)) by (bit_vector)
        requires
            r == (vstd::wrapping::u64_specs::wrapping_sub(
                vstd::wrapping::u64_specs::wrapping_mul(i, 2),
                1,
            ) >= vstd::wrapping::u64_specs::wrapping_sub(
                vstd::wrapping::u64_specs::wrapping_mul(0x7ff0000000000000u64, 2),
                1,
            )),
    ;
    r
}


/// The significand with its hidden bit, of a normal double's bit pattern.
pub open spec fn significand(iy: u64) -> nat {
    frac_bits(iy) as nat + pow2(52)
}

/// How the double with bit pattern `iy` (nonzero, finite) stands to the
/// integers: `0` when it is not an integer, `1` when it is an odd one, `2`
/// when it is an even one. The value is the significand times two to the
/// exponent field less 1075.
pub open spec fn integer_class(iy: u64) -> i32 {
    let e = exp_bits(iy) as int;
    if e < 1023 {
        0
    } else if e > 1075 {
        2
    } else {
        let s = (1075 - e) as nat;
        if significand(iy) % pow2(s) != 0 {
            0
        } else if (significand(iy) / pow2(s)) % 2 == 1 {
            1
        } else {
            2
        }
    }
}

proof fn lemma_low_bits_agree(iy: u64, sh: nat)
    requires
        sh <= 52,
    ensures
        (iy as nat) % pow2(sh) == significand(iy) % pow2(sh),
        frac_bits(iy) as nat == (iy as nat) % pow2(52),
{
    vstd::bits::lemma_u64_low_bits_mask_is_mod(iy, 52);
    vstd::arithmetic::power2::lemma2_to64_rest();
    assert(vstd::bits::low_bits_mask(52) == 0xf_ffff_ffff_ffff);
    assert(frac_bits(iy) == iy & (vstd::bits::low_bits_mask(52) as u64));
    vstd::arithmetic::power2::lemma_pow2_pos(sh);
    vstd::arithmetic::power2::lemma_pow2_pos((52 - sh) as nat);
    vstd::arithmetic::power2::lemma_pow2_adds(sh, (52 - sh) as nat);
    let a = pow2(sh) as int;
    let b = pow2((52 - sh) as nat) as int;
    assert(a * b == pow2(52));
    vstd::arithmetic::div_mod::lemma_mod_mod(iy as int, a, b);
    vstd::arithmetic::div_mod::lemma_mod_multiples_vanish(b, frac_bits(iy) as int, a);
    assert(a * b + frac_bits(iy) == significand(iy));
    assert(b * a == a * b) by (nonlinear_arith);
}

/// C `checkint`: `0` if the double with bit pattern `iy` is not an
/// integer, `1` if it is an odd integer, `2` if an even one; `iy` is the
/// bit pattern of a nonzero finite value.
pub fn pow_checkint(iy: u64) -> (r: i32)
    ensures
        r == integer_class(iy),
{
    let e = ((iy >> 52) & 0x7ff) as i32;
    assert((iy >> 52) & 0x7ff <= 0x7ff) by (bit_vector);
    assert(e == exp_bits(iy));
    if e < 0x3ff {
        return 0;
    }
    if e > 0x3ff + 52 {
        return 2;
    }
    let sh: u64 = (0x3ff + 52 - e) as u64;
    proof {
        vstd::bits::lemma_u64_pow2_no_overflow(sh as nat);
        vstd::bits::lemma_u64_shl_is_mul(1, sh);
        vstd::bits::lemma_u64_low_bits_mask_is_mod(iy, sh as nat);
        lemma_low_bits_agree(iy, sh as nat);
        assert((1u64 << sh) - 1 == vstd::bits::low_bits_mask(sh as nat) as u64);
    }
    if iy & ((1u64 << sh) - 1) != 0 {
        return 0;
    }
    proof {
        vstd::bits::lemma_u64_shr_is_div(iy, sh);
        assert(((iy & (1u64 << sh)) != 0) == (((iy >> sh) & 1) == 1)) by (bit_vector)
            requires
                sh < 64,
        ;
        assert((iy >> sh) & 1 == (iy >> sh) % 2) by (bit_vector);
        let x = iy as int;
        let p = pow2(sh as nat) as int;
        vstd::arithmetic::power2::lemma_pow2_pos(sh as nat);
        if sh < 52 {
            lemma_low_bits_agree(iy, (sh + 1) as nat);
            vstd::arithmetic::power2::lemma_pow2_adds(sh as nat, 1);
            vstd::arithmetic::power2::lemma2_to64();
            assert(pow2(1) == 2);
            assert(pow2((sh + 1) as nat) == p * 2);
            vstd::arithmetic::div_mod::lemma_mod_breakdown(x, p, 2);
            let g = significand(iy) as int;
            vstd::arithmetic::div_mod::lemma_mod_breakdown(g, p, 2);
            assert(x % (p * 2) == g % (p * 2));
            assert(x % p == g % p);
            let qa = (x / p) % 2;
            let qb = (g / p) % 2;
            assert(p * qa == p * qb);
            assert(qa == qb) by (nonlinear_arith)
                requires
                    p > 0,
                    p * qa == p * qb,
            ;
        } else {
            assert(e == 1023);
            assert((iy >> 52) & 1 == 1) by (bit_vector)
                requires
                    (iy >> 52) & 0x7ff == 1023,
            ;
            vstd::arithmetic::power2::lemma2_to64_rest();
            assert(frac_bits(iy) < pow2(52)) by {
                assert(iy & 0xf_ffff_ffff_ffff <= 0xf_ffff_ffff_ffff) by (bit_vector);
            }
            vstd::arithmetic::div_mod::lemma_fundamental_div_mod_converse(
                significand(iy) as int,
                p,
                1,
                frac_bits(iy) as int,
            );
        }
    }
    if iy & (1u64 << sh) != 0 {
        return 1;
    }
    2
}

} // verus!
