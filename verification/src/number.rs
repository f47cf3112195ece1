//! The wire format's numbers.
//!
//! The wire document format carries every number as a double-precision
//! floating-point value; this library stores such a number as its 64-bit
//! encoding and never computes with it.  The two operations the schema layer
//! does need are modelled here on the encoding alone: truncating a wire
//! number to an integer (enum discriminants and dates are transported as
//! numbers) and producing the encoding of an integer (discriminants and
//! dates written back out).  Both follow the standard binary64 layout: a sign
//! bit, an 11-bit biased exponent and a 52-bit fraction.

use vstd::arithmetic::div_mod::{
    lemma_div_denominator, lemma_div_multiples_vanish, lemma_div_nonincreasing,
    lemma_fundamental_div_mod, lemma_fundamental_div_mod_converse_div,
    lemma_fundamental_div_mod_converse_mod,
};
use vstd::arithmetic::mul::{lemma_mul_inequality, lemma_mul_is_commutative, lemma_mul_strict_inequality};
use vstd::arithmetic::power2::{
    lemma2_to64, lemma2_to64_rest, lemma_pow2_adds, lemma_pow2_pos,
    lemma_pow2_strictly_increases, pow2,
};
use vstd::prelude::*;

verus! {

/// The sign bit of an encoded number.
pub open spec fn bits_sign(bits: u64) -> nat {
    (bits as nat) / pow2(63)
}

/// The biased exponent field of an encoded number.
pub open spec fn bits_exp(bits: u64) -> nat {
    ((bits as nat) / pow2(52)) % pow2(11)
}

/// The fraction field of an encoded number.
pub open spec fn bits_frac(bits: u64) -> nat {
    (bits as nat) % pow2(52)
}

/// The truncated magnitude of a finite encoded number whose biased exponent
/// `e` is at least 1023 (that is, whose magnitude is at least 1), with
/// fraction field `m`.
pub open spec fn bits_mag(e: nat, m: nat) -> nat {
    if e <= 1075 {
        (pow2(52) + m) / pow2((1075 - e) as nat)
    } else {
        (pow2(52) + m) * pow2((e - 1075) as nat)
    }
}

/// The value of an encoded wire number truncated toward zero to an `i64`,
/// with the out-of-range cases resolved the way Rust's saturating float
/// casts resolve them: not-a-number becomes 0 and anything beyond the
/// integer range stops at the nearest bound.
pub open spec fn spec_trunc_i64(bits: u64) -> i64 {
    let s = bits_sign(bits);
    let e = bits_exp(bits);
    let m = bits_frac(bits);
    if e == 2047 {
        if m != 0 {
            0
        } else if s == 1 {
            i64::MIN
        } else {
            i64::MAX
        }
    } else if e < 1023 {
        0
    } else {
        let mag = bits_mag(e, m);
        if s == 1 {
            if mag > 0x8000000000000000 {
                i64::MIN
            } else {
                (-(mag as int)) as i64
            }
        } else {
            if mag > 0x7fffffffffffffff {
                i64::MAX
            } else {
                mag as i64
            }
        }
    }
}

/// Saturates an `i64` into the `i32` range.
pub open spec fn clamp_i32_spec(v: i64) -> i32 {
    if v < i32::MIN {
        i32::MIN
    } else if v > i32::MAX {
        i32::MAX
    } else {
        v as i32
    }
}

/// Saturates an `i64` into the `i32` range.
pub fn clamp_i32(v: i64) -> (r: i32)
    ensures
        r == clamp_i32_spec(v),
{
    if v < -0x80000000i64 {
        i32::MIN
    } else if v > 0x7fffffffi64 {
        i32::MAX
    } else {
        v as i32
    }
}

/// 2 to the power `e`, as a machine word.
fn pow2_u64(e: u64) -> (r: u64)
    requires
        e < 64,
    ensures
        r as nat == pow2(e as nat),
{
    proof {
        lemma2_to64();
        lemma2_to64_rest();
    }
    let mut r: u64 = 1;
    let mut i: u64 = 0;
    while i < e
        invariant
            i <= e < 64,
            r as nat == pow2(i as nat),
        decreases e - i,
    {
        proof {
            lemma_pow2_adds(i as nat, 1);
            lemma2_to64();
            lemma_pow2_strictly_increases(i as nat + 1, 64);
        }
        r = r * 2;
        i = i + 1;
    }
    r
}

/// Splits an encoded number into its sign, biased exponent and fraction.
fn split_bits(bits: u64) -> (r: (u64, u64, u64))
    ensures
        r.0 as nat == bits_sign(bits),
        r.1 as nat == bits_exp(bits),
        r.2 as nat == bits_frac(bits),
        r.2 < 0x10000000000000,
{
    proof {
        lemma2_to64();
        lemma2_to64_rest();
    }
    let s: u64 = bits / 0x8000000000000000;
    let q: u64 = bits / 0x10000000000000;
    let e: u64 = q % 0x800;
    let m: u64 = bits % 0x10000000000000;
    (s, e, m)
}

/// Truncates an encoded wire number toward zero into an `i64`, saturating
/// like Rust's float-to-integer cast.
pub fn trunc_i64(bits: u64) -> (r: i64)
    ensures
        r == spec_trunc_i64(bits),
{
    let (s, e, m) = split_bits(bits);
    if e == 2047 {
        if m != 0 {
            0
        } else if s == 1 {
            i64::MIN
        } else {
            i64::MAX
        }
    } else if e < 1023 {
        0
    } else if e <= 1075 {
        let sh: u64 = 1075 - e;
        let p = pow2_u64(sh);
        proof {
            lemma2_to64_rest();
            lemma_pow2_pos(sh as nat);
        }
        let mag: u64 = (0x10000000000000u64 + m) / p;
        proof {
            lemma_div_nonincreasing((0x10000000000000u64 + m) as int, p as int);
            assert(bits_mag(e as nat, m as nat) == mag as nat);
        }
        if s == 1 {
            -(mag as i64)
        } else {
            mag as i64
        }
    } else if e <= 1085 {
        let sh: u64 = e - 1075;
        let p = pow2_u64(sh);
        proof {
            lemma2_to64();
            lemma2_to64_rest();
            let a = (0x10000000000000u64 + m) as int;
            let pi = pow2(sh as nat) as int;
            assert(pi <= pow2(10) as int) by {
                if sh < 10 {
                    lemma_pow2_strictly_increases(sh as nat, 10);
                }
            }
            assert(a * pi <= a * pow2(10)) by {
                lemma_mul_inequality(pi, pow2(10) as int, a);
            }
            assert(a * pow2(10) < pow2(53) * pow2(10)) by {
                lemma_pow2_pos(10);
                lemma_mul_strict_inequality(a, pow2(53) as int, pow2(10) as int);
            }
            assert(pow2(53) * pow2(10) == pow2(63)) by {
                lemma_pow2_adds(53, 10);
            }
        }
        let mag: u64 = (0x10000000000000u64 + m) * p;
        proof {
            assert(bits_mag(e as nat, m as nat) == mag as nat);
        }
        if s == 1 {
            -(mag as i64)
        } else {
            mag as i64
        }
    } else {
        proof {
            lemma2_to64();
            lemma2_to64_rest();
            let d = (e - 1075) as nat;
            assert(pow2(11) <= pow2(d)) by {
                if d > 11 {
                    lemma_pow2_strictly_increases(11, d);
                }
            }
            assert(pow2(52) * pow2(d) <= (pow2(52) + m as nat) * pow2(d)) by {
                lemma_mul_inequality(pow2(52) as int, (pow2(52) + m as nat) as int, pow2(d) as int);
            }
            assert(pow2(52) * pow2(11) <= pow2(52) * pow2(d)) by {
                lemma_mul_inequality(pow2(11) as int, pow2(d) as int, pow2(52) as int);
            }
            lemma_pow2_adds(52, 11);
            assert(bits_mag(e as nat, m as nat) >= pow2(63));
        }
        if s == 1 {
            i64::MIN
        } else {
            i64::MAX
        }
    }
}

/// The floor of the base-2 logarithm.
pub open spec fn spec_log2(n: nat) -> nat
    decreases n,
{
    if n < 2 {
        0
    } else {
        1 + spec_log2(n / 2)
    }
}

/// For a positive number, `spec_log2` names the power-of-2 window the
/// number falls in.
pub proof fn lemma_log2_bounds(n: nat)
    requires
        n >= 1,
    ensures
        pow2(spec_log2(n)) <= n < pow2(spec_log2(n) + 1),
    decreases n,
{
    lemma2_to64();
    if n < 2 {
    } else {
        lemma_log2_bounds(n / 2);
        let k = spec_log2(n / 2);
        lemma_pow2_adds(k, 1);
        lemma_pow2_adds(k + 1, 1);
        lemma_fundamental_div_mod(n as int, 2);
        assert(pow2(k + 1) == pow2(k) * 2);
        assert(pow2(k + 2) == pow2(k + 1) * 2);
        assert(n as int == 2 * ((n / 2) as int) + ((n % 2) as int));
        assert(2 * (pow2(k) as int) <= 2 * ((n / 2) as int));
        assert(2 * ((n / 2) as int) <= 2 * (pow2(k + 1) as int - 1));
    }
}

/// The canonical wire encoding of an integer in the exactly representable
/// range: sign bit, biased exponent and fraction assembled arithmetically.
pub open spec fn spec_number_bits(v: int) -> u64 {
    if v == 0 {
        0
    } else {
        let mag = if v < 0 {
            -v
        } else {
            v
        };
        let k = spec_log2(mag as nat);
        let body = (1023 + k) * pow2(52) + (mag * pow2((52 - k) as nat) - pow2(52));
        if v < 0 {
            (body + pow2(63)) as u64
        } else {
            body as u64
        }
    }
}

/// Truncating the canonical encoding gives the integer back.
pub proof fn lemma_number_bits_trunc(v: int)
    requires
        -0x10000000000000 <= v <= 0x10000000000000,
    ensures
        spec_trunc_i64(spec_number_bits(v)) == v,
{
    lemma2_to64();
    lemma2_to64_rest();
    if v == 0 {
        assert(bits_sign(0) == 0 && bits_exp(0) == 0 && bits_frac(0) == 0);
    } else {
        let mag = if v < 0 {
            -v
        } else {
            v
        };
        let k = spec_log2(mag as nat);
        lemma_log2_bounds(mag as nat);
        assert(k <= 52) by {
            if k > 52 {
                lemma_pow2_strictly_increases(52, k);
            }
        }
        let sh = (52 - k) as nat;
        lemma_pow2_adds(k, sh);
        lemma_pow2_adds(k + 1, sh);
        assert(pow2(k) * pow2(sh) <= mag * pow2(sh)) by {
            lemma_mul_inequality(pow2(k) as int, mag, pow2(sh) as int);
        }
        assert(mag * pow2(sh) < pow2(k + 1) * pow2(sh)) by {
            lemma_pow2_pos(sh);
            lemma_mul_strict_inequality(mag, pow2(k + 1) as int, pow2(sh) as int);
        }
        let mfull = mag * pow2(sh);
        let s: nat = if v < 0 {
            1
        } else {
            0
        };
        let ev: nat = 1023 + k;
        let mv: nat = (mfull - pow2(52)) as nat;
        let bits = spec_number_bits(v);
        lemma_pow2_adds(11, 52);
        assert(bits as nat == (s * pow2(11) + ev) * pow2(52) + mv);
        lemma_fundamental_div_mod_converse_div(
            bits as int,
            pow2(52) as int,
            (s * pow2(11) + ev) as int,
            mv as int,
        );
        lemma_fundamental_div_mod_converse_mod(
            bits as int,
            pow2(52) as int,
            (s * pow2(11) + ev) as int,
            mv as int,
        );
        lemma_fundamental_div_mod_converse_mod(
            (s * pow2(11) + ev) as int,
            pow2(11) as int,
            s as int,
            ev as int,
        );
        assert(bits_frac(bits) == mv);
        assert(bits_exp(bits) == ev);
        assert(bits as nat == s * pow2(63) + ((1023 + k) * pow2(52) + mv)) by {
            lemma_pow2_adds(11, 52);
        }
        lemma_fundamental_div_mod_converse_div(
            bits as int,
            pow2(63) as int,
            s as int,
            ((1023 + k) * pow2(52) + mv) as int,
        );
        assert(bits_sign(bits) == s);
        assert(bits_mag(ev, mv) == (mfull as nat) / pow2(sh)) by {
            assert(1075 - ev == sh);
        }
        assert((mfull as nat) / pow2(sh) == mag as nat) by {
            lemma_pow2_pos(sh);
            lemma_div_multiples_vanish(mag as int, pow2(sh) as int);
            lemma_mul_is_commutative(mag as int, pow2(sh) as int);
        }
    }
}

/// Encodes an integer as a wire number.  The accepted range is the one the
/// 52-bit fraction represents exactly, so truncating the encoding recovers
/// the integer.
pub fn number_bits_of_i64(v: i64) -> (bits: u64)
    requires
        -0x10000000000000 <= v <= 0x10000000000000,
    ensures
        bits == spec_number_bits(v as int),
        spec_trunc_i64(bits) == v,
{
    proof {
        lemma2_to64();
        lemma2_to64_rest();
        lemma_number_bits_trunc(v as int);
    }
    if v == 0 {
        return 0;
    }
    let neg = v < 0;
    let mag: u64 = if neg {
        (-v) as u64
    } else {
        v as u64
    };
    let mut k: u64 = 0;
    let mut w: u64 = mag;
    while w >= 2
        invariant
            1 <= mag <= 0x10000000000000,
            k <= 52,
            w as nat == (mag as nat) / pow2(k as nat),
            w >= 1,
            spec_log2(mag as nat) == k as nat + spec_log2(w as nat),
        decreases w,
    {
        proof {
            lemma2_to64_rest();
            lemma_pow2_pos(k as nat);
            lemma_fundamental_div_mod(mag as int, pow2(k as nat) as int);
            assert(2 * pow2(k as nat) <= w as nat * pow2(k as nat)) by {
                lemma_mul_inequality(2, w as int, pow2(k as nat) as int);
            }
            lemma_pow2_adds(k as nat, 1);
            lemma2_to64();
            assert(k + 1 <= 52) by {
                if k + 1 > 52 {
                    lemma_pow2_strictly_increases(52, k as nat + 1);
                }
            }
            lemma_div_denominator(mag as int, pow2(k as nat) as int, 2);
            assert(spec_log2(w as nat) == 1 + spec_log2((w / 2) as nat));
        }
        w = w / 2;
        k = k + 1;
    }
    proof {
        lemma_pow2_pos(k as nat);
        lemma_fundamental_div_mod(mag as int, pow2(k as nat) as int);
        lemma_pow2_adds(k as nat, 1);
        assert(pow2(k as nat) <= mag as nat);
        assert((mag as nat) < pow2(k as nat + 1));
    }
    let sh: u64 = 52 - k;
    let p = pow2_u64(sh);
    proof {
        lemma2_to64();
        lemma2_to64_rest();
        lemma_pow2_adds(k as nat, sh as nat);
        lemma_pow2_adds(k as nat + 1, sh as nat);
        assert(pow2(k as nat) * pow2(sh as nat) <= (mag as nat) * pow2(sh as nat)) by {
            lemma_mul_inequality(pow2(k as nat) as int, mag as int, pow2(sh as nat) as int);
        }
        assert((mag as nat) * pow2(sh as nat) < pow2(k as nat + 1) * pow2(sh as nat)) by {
            lemma_pow2_pos(sh as nat);
            lemma_mul_strict_inequality(mag as int, pow2(k as nat + 1) as int, pow2(sh as nat) as int);
        }
    }
    let mfull: u64 = mag * p;
    let ebits: u64 = (1023 + k) * 0x10000000000000;
    let body: u64 = ebits + (mfull - 0x10000000000000);
    let bits: u64 = if neg {
        body + 0x8000000000000000
    } else {
        body
    };
    proof {
        lemma2_to64();
        lemma2_to64_rest();
        assert(spec_log2(mag as nat) == k as nat);
        assert(bits == spec_number_bits(v as int));
    }
        bits
}

} // verus!
