//! Decimal formatting and the fixed-point canonical value of a number:
//! the protocol serializes a number as the decimal digits of the number
//! times 10,000, truncated toward zero.
use vstd::arithmetic::div_mod::{
    lemma_basic_div, lemma_div_nonincreasing, lemma_fundamental_div_mod,
    lemma_fundamental_div_mod_converse,
};
use vstd::prelude::*;

verus! {

/// `10^e`.
pub open spec fn pow10(e: nat) -> int
    decreases e,
{
    if e == 0 {
        1
    } else {
        10 * pow10((e - 1) as nat)
    }
}

pub proof fn lemma_pow10_pos(e: nat)
    ensures
        pow10(e) >= 1,
    decreases e,
{
    if e > 0 {
        lemma_pow10_pos((e - 1) as nat);
    }
}

pub proof fn lemma_pow10_mono(a: nat, b: nat)
    requires
        a <= b,
    ensures
        pow10(a) <= pow10(b),
    decreases b,
{
    if a < b {
        lemma_pow10_mono(a, (b - 1) as nat);
        lemma_pow10_pos((b - 1) as nat);
    }
}

pub proof fn lemma_pow10_adds(a: nat, b: nat)
    ensures
        pow10(a + b) == pow10(a) * pow10(b),
    decreases a,
{
    if a == 0 {
    } else {
        lemma_pow10_adds((a - 1) as nat, b);
        assert((10 * pow10((a - 1) as nat)) * pow10(b) == 10 * (pow10((a - 1) as nat) * pow10(b)))
            by (nonlinear_arith);
        assert(((a + b) - 1) as nat == (a - 1) as nat + b);
    }
}

proof fn lemma_pow10_18()
    ensures
        pow10(18) == 1000000000000000000,
{
    reveal_with_fuel(pow10, 20);
}

proof fn lemma_pow10_19()
    ensures
        pow10(19) == 10000000000000000000,
{
    reveal_with_fuel(pow10, 21);
}

/// Integer division truncated toward zero, for a positive divisor.
pub open spec fn trunc_div(a: int, b: int) -> int {
    if a >= 0 {
        a / b
    } else {
        -((-a) / b)
    }
}

/// The canonical integer of the number `mantissa * 10^(-scale)`: the
/// number times 10,000, truncated toward zero.
pub open spec fn canon_num(mantissa: int, scale: nat) -> int {
    trunc_div(mantissa * 10000, pow10(scale))
}

/// The ASCII digit for `d` (0 through 9).
pub open spec fn dec_digit(d: int) -> u8 {
    (48 + d) as u8
}

/// The decimal digits of a nonnegative integer, most significant first.
pub open spec fn dec_bytes_nat(n: int) -> Seq<u8>
    decreases n,
{
    if n < 10 {
        seq![dec_digit(n)]
    } else {
        dec_bytes_nat(n / 10).push(dec_digit(n % 10))
    }
}

/// The decimal form of an integer: its digits, `-`-prefixed when negative.
pub open spec fn dec_bytes_of(v: int) -> Seq<u8> {
    if v < 0 {
        seq![45u8] + dec_bytes_nat(-v)
    } else {
        dec_bytes_nat(v)
    }
}

/// Relies on `i128`'s `Display` (through `ToString`): the decimal digits of
/// the value, with a leading `-` for a negative value.
#[verifier::external_body]
pub fn i128_dec_bytes(v: i128) -> (r: Vec<u8>)
    ensures
        r@ == dec_bytes_of(v as int),
{
    v.to_string().into_bytes()
}

fn pow10_u128(e: u32) -> (r: u128)
    requires
        e <= 18,
    ensures
        r as int == pow10(e as nat),
{
    let mut r: u128 = 1;
    let mut k: u32 = 0;
    while k < e
        invariant
            k <= e <= 18,
            r as int == pow10(k as nat),
        decreases e - k,
    {
        proof {
            lemma_pow10_18();
            lemma_pow10_mono((k + 1) as nat, 18);
            assert(pow10((k + 1) as nat) == 10 * pow10(k as nat));
        }
        r = r * 10;
        k = k + 1;
    }
    r
}

/// The canonical decimal bytes of the number `mantissa * 10^(-scale)`.
pub fn canon_num_bytes(mantissa: i64, scale: u32) -> (r: Vec<u8>)
    ensures
        r@ == dec_bytes_of(canon_num(mantissa as int, scale as nat)),
{
    let ghost m: int = mantissa as int;
    let ghost s: nat = scale as nat;
    let neg = mantissa < 0;
    let a: u128 = if mantissa >= 0 {
        mantissa as u128
    } else {
        (-(mantissa as i128)) as u128
    };
    proof {
        assert(a as int == if m >= 0 { m } else { -m });
        assert(a <= 0x8000000000000000u128);
    }
    let q: u128 = if scale <= 4 {
        let p = pow10_u128(4 - scale);
        proof {
            lemma_pow10_mono((4 - scale) as nat, 18);
            lemma_pow10_18();
            assert(a * p <= 0x8000000000000000u128 * 1000000000000000000u128) by (nonlinear_arith)
                requires
                    a <= 0x8000000000000000u128,
                    p <= 1000000000000000000u128,
            ;
        }
        a * p
    } else if scale <= 22 {
        let d = pow10_u128(scale - 4);
        proof {
            lemma_pow10_pos((scale - 4) as nat);
        }
        a / d
    } else {
        0u128
    };
    proof {
        lemma_canon_abs(m, s, a as int, q as int);
    }
    if neg {
        proof {
            assert(q <= 0x8000000000000000u128 * 1000000000000000000u128);
        }
        i128_dec_bytes(-(q as i128))
    } else {
        i128_dec_bytes(q as i128)
    }
}

/// `q` as computed by `canon_num_bytes` is the magnitude of the canonical
/// number, so the canonical number itself is `q` with the mantissa's sign.
proof fn lemma_canon_abs(m: int, s: nat, a: int, q: int)
    requires
        a == if m >= 0 { m } else { -m },
        a <= 0x8000000000000000,
        s <= 4 ==> q == a * pow10((4 - s) as nat),
        4 < s <= 22 ==> q == a / pow10((s - 4) as nat),
        s > 22 ==> q == 0,
    ensures
        canon_num(m, s) == if m >= 0 { q } else { -q },
        q <= 0x8000000000000000 * 1000000000000000000,
{
    let b = pow10(s);
    lemma_pow10_pos(s);
    // |m * 10000| == a * 10000, and the truncated division of the signed
    // product is the sign applied to the unsigned quotient.
    assert(m * 10000 == if m >= 0 { a * 10000 } else { -(a * 10000) });
    let x = a * 10000;
    assert(x >= 0) by (nonlinear_arith)
        requires
            a >= 0,
            x == a * 10000,
    ;
    assert(canon_num(m, s) == if m >= 0 { x / b } else { -(x / b) });
    if s <= 4 {
        let p = pow10((4 - s) as nat);
        lemma_pow10_adds((4 - s) as nat, s);
        reveal_with_fuel(pow10, 5);
        assert(pow10(4) == 10000);
        assert(p * b == 10000);
        assert(x == (a * p) * b) by (nonlinear_arith)
            requires
                p * b == 10000,
                x == a * 10000,
        ;
        assert(q * b >= 0) by (nonlinear_arith)
            requires
                q >= 0,
                b >= 1,
        ;
        lemma_fundamental_div_mod_converse(x, b, q, 0);
        assert(x / b == q);
        lemma_pow10_mono((4 - s) as nat, 18);
        lemma_pow10_18();
        assert(q <= 0x8000000000000000 * 1000000000000000000) by (nonlinear_arith)
            requires
                q == a * p,
                0 <= a <= 0x8000000000000000,
                0 <= p <= 1000000000000000000,
        ;
    } else if s <= 22 {
        let d = pow10((s - 4) as nat);
        lemma_pow10_pos((s - 4) as nat);
        lemma_pow10_adds((s - 4) as nat, 4);
        reveal_with_fuel(pow10, 5);
        assert(b == d * 10000) by {
            assert(pow10(s) == pow10((s - 4) as nat) * pow10(4));
        }
        lemma_fundamental_div_mod(a, d);
        let r0 = a % d;
        assert(a == d * q + r0);
        assert(x == q * b + r0 * 10000) by (nonlinear_arith)
            requires
                x == a * 10000,
                a == d * q + r0,
                b == d * 10000,
        ;
        assert(0 <= r0 * 10000 < b) by (nonlinear_arith)
            requires
                0 <= r0 < d,
                b == d * 10000,
        ;
        lemma_fundamental_div_mod_converse(x, b, q, r0 * 10000);
        assert(x / b == q);
        lemma_div_nonincreasing(a, d);
    } else {
        lemma_pow10_19();
        lemma_pow10_adds(19, 4);
        reveal_with_fuel(pow10, 5);
        assert(pow10(4) == 10000);
        assert(x < pow10(23)) by (nonlinear_arith)
            requires
                x == a * 10000,
                0 <= a < pow10(19),
                pow10(23) == pow10(19) * pow10(4),
                pow10(4) == 10000,
        ;
        lemma_pow10_mono(23, s);
        lemma_basic_div(x, b);
        assert(x / b == 0);
    }
}

} // verus!
