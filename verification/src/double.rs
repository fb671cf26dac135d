//! Double-precision numbers, held by their bits.
//!
//! A finite double that is not negative is `mantissa(bits) * 2^(exponent(bits) - 1075)`.
//! Order, rounding and products with small integers are computed on these integers.

use crate::json::{Number, NumberV};
use crate::text;
use vstd::arithmetic::power2::pow2;
use vstd::prelude::*;

verus! {

/// One more than the largest 53-bit integer.
pub const TWO_53: u64 = 0x20_0000_0000_0000;

pub const TWO_52: u64 = 0x10_0000_0000_0000;

pub const TWO_63: u64 = 0x8000_0000_0000_0000;

/// A finite double: its bits, and the shortest decimal text that spells it.
#[derive(Debug)]
pub struct Real {
    pub bits: u64,
    pub spelling: String,
}

/// What `str::parse` makes of a text that spells a finite double: its bits, and the text
/// that `serde_json` writes of it.
pub uninterp spec fn double_of(input: Seq<char>) -> Option<(u64, Seq<char>)>;

/// What a real that may be missing holds.
pub open spec fn real_of(r: Option<Real>) -> Option<(u64, Seq<char>)> {
    match r {
        Some(x) => Some((x.bits, x.spelling@)),
        None => None,
    }
}

/// `str::parse` to a double, and `serde_json::Number` for its text: a function of the text.
/// A text that spells no finite double gives nothing.
#[verifier::external_body]
pub(crate) fn read_double(input: &str) -> (r: Option<Real>)
    ensures
        real_of(r) == double_of(input@),
{
    let number = serde_json::Number::from_f64(input.parse().ok()?)?;
    Some(Real { bits: number.as_f64()?.to_bits(), spelling: number.to_string() })
}

/// The place of a double in the order of the numbers: both zeros are 0, larger doubles
/// have larger places.
pub open spec fn order(bits: u64) -> int {
    if bits < TWO_63 {
        bits as int
    } else {
        -(bits - TWO_63)
    }
}

pub fn order_of(bits: u64) -> (r: i128)
    ensures
        r == order(bits),
{
    if bits < TWO_63 {
        bits as i128
    } else {
        -((bits - TWO_63) as i128)
    }
}

/// The order of the positive infinity.
pub const INFINITE: u64 = 0x7ff0_0000_0000_0000;

/// The bits of the double 5.
pub const FIVE: u64 = 0x4014_0000_0000_0000;

pub open spec fn is_finite(bits: u64) -> bool {
    -INFINITE < order(bits) < INFINITE
}

/// How many low bits an integer has beyond the 53 that a double keeps.
pub open spec fn excess(n: nat) -> nat
    decreases n,
{
    if n < TWO_53 {
        0
    } else {
        1 + excess(n / 2)
    }
}

/// The integer nearest to `n / 2^s`, the even one of two that are equally near.
pub open spec fn shifted(n: nat, s: nat) -> nat {
    let q = n / pow2(s);
    let r = n % pow2(s);
    if 2 * r > pow2(s) || (2 * r == pow2(s) && q % 2 == 1) {
        q + 1
    } else {
        q
    }
}

/// How often an integer must be doubled to fill 53 bits.
pub open spec fn slack(n: nat) -> nat
    decreases TWO_53 - n,
{
    if n == 0 || n >= TWO_52 {
        0
    } else {
        1 + slack(2 * n)
    }
}

/// The bits of the double nearest to an integer.
pub open spec fn nearest(n: nat) -> int {
    if n == 0 {
        0
    } else if n < TWO_53 {
        (1075 - slack(n)) * TWO_52 + n * pow2(slack(n)) - TWO_52
    } else {
        (1075 + excess(n)) * TWO_52 + shifted(n, excess(n)) - TWO_52
    }
}

/// The bits of the double that a JSON number stands for.
pub open spec fn bits_of(n: NumberV) -> int {
    match n {
        NumberV::Unsigned(v) => nearest(v as nat),
        NumberV::Negative(v) => if v >= 0 {
            nearest(v as nat)
        } else {
            TWO_63 + nearest((-v) as nat)
        },
        NumberV::Real(bits, _) => bits as int,
    }
}

pub open spec fn mantissa(bits: u64) -> nat {
    if bits < TWO_52 {
        bits as nat
    } else {
        (TWO_52 + bits % TWO_52) as nat
    }
}

/// The exponent of a double that is not negative, 1075 more than that of its last bit.
pub open spec fn exponent(bits: u64) -> int {
    if bits < TWO_52 {
        1
    } else {
        (bits / TWO_52) as int
    }
}

/// The integer nearest to `n * 2^e`, the larger one of two that are equally near, where
/// it fits 64 bits, and the largest 64-bit integer where it does not.
pub open spec fn rounded(n: nat, e: int) -> int {
    let whole = if e >= 0 {
        (n * pow2(e as nat)) as int
    } else {
        ((n + pow2((-e - 1) as nat)) / pow2((-e) as nat)) as int
    };
    if whole <= u64::MAX {
        whole
    } else {
        u64::MAX as int
    }
}

/// A double that is not negative times a small integer, as a double, then rounded.
pub open spec fn scaled(bits: u64, factor: nat) -> int {
    let n = mantissa(bits) * factor;
    let s = excess(n);
    rounded(shifted(n, s), exponent(bits) - 1075 + s)
}

/// `n / 2^excess(n)`, rounded to even, beside the excess itself.
fn round_to_53(n: u128) -> (r: (u64, u32))
    requires
        n < 0x4000_0000_0000_0000_0000_0000_0000,
    ensures
        r.0 == shifted(n as nat, excess(n as nat)),
        r.1 == excess(n as nat),
        r.0 <= TWO_53,
        r.1 <= 57,
{
    let mut q: u128 = n;
    let mut d: u128 = 1;
    let mut s: u32 = 0;
    proof {
        vstd::arithmetic::power2::lemma2_to64();
        vstd::arithmetic::power2::lemma2_to64_rest();
    }
    while q >= TWO_53 as u128
        invariant
            n < 0x4000_0000_0000_0000_0000_0000_0000,
            d == pow2(s as nat),
            d > 0,
            q == (n as nat) / pow2(s as nat),
            q * d <= n,
            excess(n as nat) == s + excess(q as nat),
            s <= 57,
            s == 57 ==> q < TWO_53,
        decreases q,
    {
        proof {
            vstd::arithmetic::power2::lemma_pow2_unfold((s + 1) as nat);
            vstd::arithmetic::div_mod::lemma_div_denominator(n as int, d as int, 2);
            assert(q * d <= n);
            assert(d * 0x20_0000_0000_0000 <= q * d) by (nonlinear_arith)
                requires
                    q >= 0x20_0000_0000_0000,
                    d > 0,
            ;
            assert(d <= 0x200_0000_0000_0000);
        }
        let half: u128 = q / 2;
        proof {
            assert(half * (2 * d) <= q * d) by (nonlinear_arith)
                requires
                    half * 2 <= q,
                    d > 0,
            ;
        }
        q = half;
        d = d * 2;
        s = s + 1;
        proof {
            vstd::arithmetic::power2::lemma2_to64();
            vstd::arithmetic::power2::lemma2_to64_rest();
            if s > 57 {
                vstd::arithmetic::power2::lemma_pow2_strictly_increases(57, s as nat);
            }
            if s == 57 && q >= TWO_53 {
                assert(q * d >= 0x20_0000_0000_0000 * 0x200_0000_0000_0000) by (nonlinear_arith)
                    requires
                        q >= 0x20_0000_0000_0000,
                        d == 0x200_0000_0000_0000,
                ;
            }
        }
    }
    let r: u128 = n % d;
    if 2 * r > d || (2 * r == d && q % 2 == 1) {
        ((q + 1) as u64, s)
    } else {
        (q as u64, s)
    }
}

fn power(k: u32) -> (r: u128)
    requires
        k <= 100,
    ensures
        r == pow2(k as nat),
{
    let mut p: u128 = 1;
    let mut i: u32 = 0;
    proof {
        vstd::arithmetic::power2::lemma2_to64();
        lemma_pow2_100();
    }
    while i < k
        invariant
            0 <= i <= k <= 100,
            p == pow2(i as nat),
            pow2(100) == 0x10_0000_0000_0000_0000_0000_0000,
        decreases k - i,
    {
        proof {
            vstd::arithmetic::power2::lemma_pow2_unfold((i + 1) as nat);
            vstd::arithmetic::power2::lemma_pow2_strictly_increases(i as nat, 100);
        }
        p = p * 2;
        i = i + 1;
    }
    p
}

proof fn lemma_pow2_100()
    ensures
        pow2(100) == 0x10_0000_0000_0000_0000_0000_0000,
{
    vstd::arithmetic::power2::lemma2_to64_rest();
    vstd::arithmetic::power2::lemma_pow2_adds(50, 50);
}

fn round_half_up(n: u64, e: i32) -> (r: u64)
    requires
        n <= TWO_53,
        -2000 < e < 2000,
    ensures
        r == rounded(n as nat, e as int),
{
    proof {
        vstd::arithmetic::power2::lemma2_to64();
        vstd::arithmetic::power2::lemma2_to64_rest();
    }
    if e >= 0 {
        if n == 0 {
            assert(0 * pow2(e as nat) == 0);
            return 0;
        }
        if e >= 64 {
            proof {
                if e > 64 {
                    vstd::arithmetic::power2::lemma_pow2_strictly_increases(64, e as nat);
                }
                assert(n * pow2(e as nat) >= pow2(e as nat)) by (nonlinear_arith)
                    requires
                        n >= 1,
                ;
            }
            return u64::MAX;
        }
        let p: u128 = power(e as u32);
        proof {
            vstd::arithmetic::power2::lemma_pow2_strictly_increases(e as nat, 64);
            assert(n * p <= 0x20_0000_0000_0000 * 0x1_0000_0000_0000_0000) by (nonlinear_arith)
                requires
                    n <= 0x20_0000_0000_0000,
                    p <= 0x1_0000_0000_0000_0000,
            ;
        }
        let whole: u128 = (n as u128) * p;
        if whole <= u64::MAX as u128 {
            whole as u64
        } else {
            u64::MAX
        }
    } else {
        let k: u32 = (-e) as u32;
        if k >= 64 {
            proof {
                vstd::arithmetic::power2::lemma_pow2_strictly_increases(53, (k - 1) as nat);
                vstd::arithmetic::power2::lemma_pow2_unfold(k as nat);
                vstd::arithmetic::div_mod::lemma_basic_div(
                    n + pow2((k - 1) as nat),
                    pow2(k as nat) as int,
                );
            }
            return 0;
        }
        let half: u128 = power(k - 1);
        let whole: u128 = power(k);
        proof {
            vstd::arithmetic::power2::lemma_pow2_unfold(k as nat);
            vstd::arithmetic::power2::lemma_pow2_strictly_increases((k - 1) as nat, 64);
            vstd::arithmetic::div_mod::lemma_div_is_ordered_by_denominator(
                (n + half) as int,
                1,
                whole as int,
            );
            vstd::arithmetic::div_mod::lemma_div_basics((n + half) as int);
        }
        ((n as u128 + half) / whole) as u64
    }
}

/// A double that is not negative times a small integer, as a double, then rounded.
pub fn scaled_to_integer(bits: u64, factor: u64) -> (r: u64)
    requires
        bits < INFINITE,
        factor <= 1_000_000,
    ensures
        r == scaled(bits, factor as nat),
{
    let m: u64 = if bits < TWO_52 {
        bits
    } else {
        TWO_52 + bits % TWO_52
    };
    let e: i32 = if bits < TWO_52 {
        1
    } else {
        (bits / TWO_52) as i32
    };
    assert(m * factor <= 0x20_0000_0000_0000 * 1_000_000) by (nonlinear_arith)
        requires
            m <= 0x20_0000_0000_0000,
            factor <= 1_000_000,
    ;
    let product: u128 = (m as u128) * (factor as u128);
    let parts: (u64, u32) = round_to_53(product);
    round_half_up(parts.0, e - 1075 + parts.1 as i32)
}

/// The bits of the double nearest to an integer.
pub fn nearest_bits(n: u64) -> (r: u64)
    ensures
        r == nearest(n as nat),
        r < TWO_63,
{
    if n == 0 {
        return 0;
    }
    if n < TWO_53 {
        let mut q: u64 = n;
        let mut s: u64 = 0;
        proof {
            vstd::arithmetic::power2::lemma2_to64();
        }
        while q < TWO_52
            invariant
                0 < n,
                0 < q < TWO_53,
                q == n * pow2(s as nat),
                q >= s,
                slack(n as nat) == s + slack(q as nat),
                s <= 53,
                q >= pow2(s as nat),
            decreases TWO_53 - q,
        {
            proof {
                vstd::arithmetic::power2::lemma_pow2_unfold((s + 1) as nat);
                vstd::arithmetic::power2::lemma2_to64_rest();
                if s >= 52 {
                    if s > 52 {
                        vstd::arithmetic::power2::lemma_pow2_strictly_increases(52, s as nat);
                    }
                }
                assert(n * (2 * pow2(s as nat)) == 2 * (n * pow2(s as nat))) by (nonlinear_arith);
            }
            q = q * 2;
            s = s + 1;
        }
        return (1075 - s) * TWO_52 + q - TWO_52;
    }
    let parts: (u64, u32) = round_to_53(n as u128);
    proof {
        lemma_shifted_is_large(n as nat);
    }
    (1075 + parts.1 as u64) * TWO_52 + parts.0 - TWO_52
}

/// An integer with more than 53 bits keeps all 53 of them.
proof fn lemma_shifted_is_large(n: nat)
    requires
        n >= TWO_53,
    ensures
        n / pow2(excess(n)) >= TWO_52,
        shifted(n, excess(n)) >= TWO_52,
    decreases n,
{
    let s = excess((n / 2) as nat);
    vstd::arithmetic::power2::lemma_pow2_pos(s);
    vstd::arithmetic::power2::lemma_pow2_unfold(s + 1);
    vstd::arithmetic::div_mod::lemma_div_denominator(n as int, 2, pow2(s) as int);
    if n / 2 < TWO_53 {
        vstd::arithmetic::power2::lemma2_to64();
        assert(n / 2 / 1 == n / 2);
    } else {
        lemma_shifted_is_large((n / 2) as nat);
    }
}

/// The bits of the double that a JSON number stands for.
pub fn number_bits(n: &Number) -> (r: u64)
    ensures
        r == bits_of(n@),
{
    match n {
        Number::Unsigned(v) => nearest_bits(*v),
        Number::Negative(v) => if *v >= 0 {
            nearest_bits(*v as u64)
        } else {
            let magnitude: u64 = (-(*v as i128)) as u64;
            TWO_63 + nearest_bits(magnitude)
        },
        Number::Real { bits, .. } => *bits,
    }
}

/// The double that an integer stands for.
pub open spec fn real_of_number(n: NumberV) -> Option<(u64, Seq<char>)> {
    match n {
        NumberV::Unsigned(v) => double_of(text::decimal(v as nat)),
        NumberV::Negative(v) => if v < 0 {
            double_of("-"@ + text::decimal((-v) as nat))
        } else {
            double_of(text::decimal(v as nat))
        },
        NumberV::Real(bits, spelling) => Some((bits, spelling)),
    }
}

/// The double that a JSON number stands for.
pub fn number_real(n: &Number) -> (r: Option<Real>)
    ensures
        real_of(r) == real_of_number(n@),
{
    match n {
        Number::Unsigned(v) => read_double(text::decimal_text(*v).as_str()),
        Number::Negative(v) => if *v < 0 {
            let magnitude: u64 = (-(*v as i128)) as u64;
            read_double(text::joined("-", text::decimal_text(magnitude).as_str()).as_str())
        } else {
            read_double(text::decimal_text(*v as u64).as_str())
        },
        Number::Real { bits, spelling } => Some(Real { bits: *bits, spelling: spelling.clone() }),
    }
}

/// The bits of the double nearest to `n * 2^(e - 1075)`.
pub open spec fn encoded(n: nat, e: int) -> int {
    (e + excess(n)) * TWO_52 + shifted(n, excess(n)) - TWO_52
}

/// The bits of the sum of two doubles that are not negative.
pub open spec fn sum_of(a: u64, b: u64) -> int {
    if exponent(a) >= exponent(b) {
        encoded(
            mantissa(a) * pow2((exponent(a) - exponent(b)) as nat) + mantissa(b),
            exponent(b),
        )
    } else {
        encoded(
            mantissa(b) * pow2((exponent(b) - exponent(a)) as nat) + mantissa(a),
            exponent(a),
        )
    }
}

/// Bits far below an integer of 53 bits are all that its double gives up.
proof fn lemma_far_apart(m: nat, r: nat, d: nat)
    requires
        TWO_52 <= m < TWO_53,
        r < pow2(d),
    ensures
        excess(m * pow2(d) + r) == d,
    decreases d,
{
    vstd::arithmetic::power2::lemma_pow2_pos(d);
    if d == 0 {
        vstd::arithmetic::power2::lemma2_to64();
        assert(m * 1 + r == m);
    } else {
        let p = pow2((d - 1) as nat);
        vstd::arithmetic::power2::lemma_pow2_unfold(d);
        assert(m * (2 * p) == 2 * (m * p)) by (nonlinear_arith);
        lemma_far_apart(m, r / 2, (d - 1) as nat);
        assert((m * pow2(d) + r) / 2 == m * p + r / 2);
        assert(m * p >= m) by (nonlinear_arith)
            requires
                p >= 1,
        ;
        vstd::arithmetic::power2::lemma_pow2_pos((d - 1) as nat);
    }
}

proof fn lemma_shifted_far(m: nat, r: nat, d: nat)
    requires
        TWO_52 <= m < TWO_53,
        2 * r < pow2(d),
    ensures
        shifted(m * pow2(d) + r, d) == m,
{
    vstd::arithmetic::power2::lemma_pow2_pos(d);
    vstd::arithmetic::div_mod::lemma_fundamental_div_mod_converse(
        (m * pow2(d) + r) as int,
        pow2(d) as int,
        m as int,
        r as int,
    );
}

fn parts_of(bits: u64) -> (r: (u64, u64))
    requires
        bits < INFINITE,
    ensures
        r.0 == mantissa(bits),
        r.1 == exponent(bits),
        r.0 < TWO_53,
        1 <= r.1 < 2047,
        r.1 > 1 ==> r.0 >= TWO_52,
{
    if bits < TWO_52 {
        (bits, 1)
    } else {
        (TWO_52 + bits % TWO_52, bits / TWO_52)
    }
}

fn add_ordered(large: (u64, u64), small: (u64, u64)) -> (r: u64)
    requires
        large.0 < TWO_53,
        small.0 < TWO_53,
        1 <= small.1 <= large.1 < 2047,
        large.1 > 1 ==> large.0 >= TWO_52,
        small.1 > 1 ==> small.0 >= TWO_52,
    ensures
        r == encoded(
            large.0 as nat * pow2((large.1 - small.1) as nat) + small.0 as nat,
            small.1 as int,
        ),
        r <= TWO_63,
{
    let d: u64 = large.1 - small.1;
    if d > 56 {
        proof {
            vstd::arithmetic::power2::lemma2_to64_rest();
            vstd::arithmetic::power2::lemma_pow2_strictly_increases(55, d as nat);
            lemma_far_apart(large.0 as nat, small.0 as nat, d as nat);
            lemma_shifted_far(large.0 as nat, small.0 as nat, d as nat);
        }
        return large.1 * TWO_52 + (large.0 - TWO_52);
    }
    let p: u128 = power(d as u32);
    proof {
        vstd::arithmetic::power2::lemma2_to64();
        vstd::arithmetic::power2::lemma2_to64_rest();
        if d < 56 {
            vstd::arithmetic::power2::lemma_pow2_strictly_increases(d as nat, 56);
        }
        assert(large.0 * p < 0x20_0000_0000_0000 * 0x100_0000_0000_0000) by (nonlinear_arith)
            requires
                large.0 < 0x20_0000_0000_0000,
                p <= 0x100_0000_0000_0000,
                p > 0,
        ;
    }
    let n: u128 = (large.0 as u128) * p + small.0 as u128;
    let parts: (u64, u32) = round_to_53(n);
    proof {
        lemma_sum_fits(large, small, n as nat, p as nat, parts.0 as nat, parts.1 as nat);
    }
    (small.1 + parts.1 as u64) * TWO_52 + parts.0 - TWO_52
}

proof fn lemma_excess_bound(n: nat, k: nat)
    requires
        n < TWO_53 * pow2(k),
    ensures
        excess(n) <= k,
    decreases k,
{
    vstd::arithmetic::power2::lemma2_to64();
    if k > 0 && n >= TWO_53 {
        vstd::arithmetic::power2::lemma_pow2_unfold(k);
        assert(TWO_53 * (2 * pow2((k - 1) as nat)) == 2 * (TWO_53 * pow2((k - 1) as nat)))
            by (nonlinear_arith);
        lemma_excess_bound(n / 2, (k - 1) as nat);
    }
}

proof fn lemma_sum_fits(
    large: (u64, u64),
    small: (u64, u64),
    n: nat,
    p: nat,
    q: nat,
    s: nat,
)
    requires
        large.0 < TWO_53,
        small.0 < TWO_53,
        1 <= small.1 <= large.1 < 2047,
        large.1 > 1 ==> large.0 >= TWO_52,
        small.1 > 1 ==> small.0 >= TWO_52,
        p == pow2((large.1 - small.1) as nat),
        n == large.0 * p + small.0,
        q == shifted(n, excess(n)),
        s == excess(n),
        q <= TWO_53,
    ensures
        (small.1 + s) * TWO_52 + q - TWO_52 <= TWO_63,
        (small.1 + s) * TWO_52 + q >= TWO_52,
{
    let d = (large.1 - small.1) as nat;
    vstd::arithmetic::power2::lemma_pow2_unfold(d + 1);
    vstd::arithmetic::power2::lemma_pow2_pos(d);
    assert(large.0 * p <= (TWO_53 - 1) * p) by (nonlinear_arith)
        requires
            large.0 <= TWO_53 - 1,
            p >= 1,
    ;
    assert((TWO_53 - 1) * p + TWO_53 <= TWO_53 * (2 * p)) by (nonlinear_arith)
        requires
            p >= 1,
    ;
    assert(TWO_53 * pow2(d + 1) == TWO_53 * (2 * p));
    lemma_excess_bound(n, d + 1);
}

/// The integer that a row of decimal digits spells, the last one first.
spec fn digits_number(d: Seq<u8>) -> nat
    decreases d.len(),
{
    if d.len() == 0 {
        0
    } else {
        d[0] as nat + 10 * digits_number(d.drop_first())
    }
}

spec fn are_digits(d: Seq<u8>) -> bool {
    forall|i: int| 0 <= i < d.len() ==> #[trigger] d[i] < 10
}

/// The digits of a number, the last one first.
fn digits_of(n: u64) -> (r: Vec<u8>)
    ensures
        are_digits(r@),
        digits_number(r@) == n,
    decreases n,
{
    let mut out: Vec<u8> = Vec::new();
    if n == 0 {
        return out;
    }
    out.push((n % 10) as u8);
    let rest: Vec<u8> = digits_of(n / 10);
    let mut i: usize = 0;
    while i < rest.len()
        invariant
            0 <= i <= rest@.len(),
            out@ =~= seq![(n % 10) as u8] + rest@.take(i as int),
        decreases rest@.len() - i,
    {
        out.push(rest[i]);
        i = i + 1;
    }
    assert(out@.drop_first() =~= rest@);
    assert(are_digits(out@)) by {
        assert forall|k: int| 0 <= k < out@.len() implies #[trigger] out@[k] < 10 by {
            if k > 0 {
                assert(out@[k] == rest@[k - 1]);
            }
        }
    }
    out
}

proof fn lemma_digits_push(d: Seq<u8>, x: u8)
    ensures
        digits_number(d.push(x)) == digits_number(d) + x * vstd::arithmetic::power::pow(
            10,
            d.len(),
        ),
    decreases d.len(),
{
    let all = d.push(x);
    if d.len() == 0 {
        assert(all.drop_first() =~= Seq::empty());
        vstd::arithmetic::power::lemma_pow0(10);
        assert(digits_number(all.drop_first()) == 0);
        assert(x * 1 == x);
    } else {
        assert(all.drop_first() =~= d.drop_first().push(x));
        lemma_digits_push(d.drop_first(), x);
        vstd::arithmetic::power::lemma_pow1(10);
        vstd::arithmetic::power::lemma_pow_adds(10, 1, (d.len() - 1) as nat);
        let p = vstd::arithmetic::power::pow(10, (d.len() - 1) as nat);
        assert(10 * (x * p) == x * (10 * p)) by (nonlinear_arith);
    }
}

/// The digits of a number times a digit.
fn times_digit(d: &Vec<u8>, factor: u8) -> (r: Vec<u8>)
    requires
        are_digits(d@),
        factor < 10,
    ensures
        are_digits(r@),
        digits_number(r@) == digits_number(d@) * factor,
{
    let mut out: Vec<u8> = Vec::new();
    let mut carry: u8 = 0;
    let mut i: usize = 0;
    assert(d@.take(0) =~= Seq::empty());
    proof {
        vstd::arithmetic::power::lemma_pow0(10);
        assert(0 * factor == 0);
        assert(digits_number(d@.take(0)) == 0);
    }
    while i < d.len()
        invariant
            0 <= i <= d@.len(),
            are_digits(d@),
            are_digits(out@),
            factor < 10,
            carry <= 8,
            out@.len() == i,
            digits_number(out@) + carry * vstd::arithmetic::power::pow(10, i as nat)
                == digits_number(d@.take(i as int)) * factor,
        decreases d@.len() - i,
    {
        let x: u8 = d[i];
        assert(x < 10);
        assert(x * factor <= 81) by (nonlinear_arith)
            requires
                x <= 9,
                factor <= 9,
        ;
        let t: u8 = x * factor + carry;
        let ghost before = out@;
        let ghost p = vstd::arithmetic::power::pow(10, i as nat);
        proof {
            lemma_digits_push(before, (t % 10) as u8);
            lemma_digits_push(d@.take(i as int), x);
            assert(d@.take(i + 1) =~= d@.take(i as int).push(x));
            vstd::arithmetic::power::lemma_pow1(10);
            vstd::arithmetic::power::lemma_pow_adds(10, 1, i as nat);
            let old_n = digits_number(d@.take(i as int));
            assert((t % 10) * p + (t / 10) * (10 * p) == t * p) by (nonlinear_arith)
                requires
                    t == 10 * (t / 10) + t % 10,
            ;
            assert(t * p == x * factor * p + carry * p) by (nonlinear_arith)
                requires
                    t == x * factor + carry,
            ;
            assert((old_n + x * p) * factor == old_n * factor + x * factor * p)
                by (nonlinear_arith);
        }
        out.push(t % 10);
        carry = t / 10;
        i = i + 1;
    }
    assert(d@.take(i as int) =~= d@);
    if carry > 0 {
        proof {
            lemma_digits_push(out@, carry);
        }
        out.push(carry);
    }
    out
}

/// The text of a row of digits, without the zeros before the first other digit.
fn digits_text(d: &Vec<u8>) -> (r: String)
    requires
        are_digits(d@),
    ensures
        r@ == text::decimal(digits_number(d@)),
{
    let mut n: usize = d.len();
    assert(d@.take(n as int) =~= d@);
    while n > 0 && d[n - 1] == 0
        invariant
            0 <= n <= d@.len(),
            are_digits(d@),
            digits_number(d@.take(n as int)) == digits_number(d@),
        decreases n,
    {
        proof {
            lemma_digits_push(d@.take(n - 1), 0);
            assert(d@.take(n as int) =~= d@.take(n - 1).push(0));
        }
        n = n - 1;
    }
    let mut out: Vec<char> = Vec::new();
    if n == 0 {
        assert(d@.take(0) =~= Seq::empty());
        out.push('0');
        assert(out@ =~= text::decimal(0));
        return text::string_of(out.as_slice());
    }
    let ghost kept = d@.take(n as int);
    let mut i: usize = n - 1;
    out.push(text::digit_char(d[i]));
    assert(kept.skip(i as int).drop_first() =~= Seq::empty());
    assert(digits_number(kept.skip(i as int)) == d@[i as int] + 10 * digits_number(
        kept.skip(i as int).drop_first(),
    ));
    assert(out@ =~= text::decimal(d@[i as int] as nat));
    while i > 0
        invariant
            0 <= i < n <= d@.len(),
            are_digits(d@),
            kept == d@.take(n as int),
            digits_number(kept.skip(i as int)) > 0,
            out@ == text::decimal(digits_number(kept.skip(i as int))),
        decreases i,
    {
        assert(kept.skip(i - 1).drop_first() =~= kept.skip(i as int));
        assert(kept.skip(i - 1)[0] == d@[i - 1]);
        i = i - 1;
        out.push(text::digit_char(d[i]));
    }
    assert(kept.skip(0) =~= kept);
    text::string_of(out.as_slice())
}

/// The exact decimal spelling of a finite double that is not negative.
pub open spec fn exact_text(bits: u64) -> Seq<char> {
    let e = exponent(bits);
    if e >= 1075 {
        text::decimal(mantissa(bits) * vstd::arithmetic::power::pow(2, (e - 1075) as nat) as nat)
    } else {
        text::decimal(mantissa(bits) * vstd::arithmetic::power::pow(5, (1075 - e) as nat) as nat)
            + "e-"@ + text::decimal((1075 - e) as nat)
    }
}

fn times_power(n: u64, factor: u8, k: u64) -> (r: Vec<u8>)
    requires
        factor < 10,
    ensures
        are_digits(r@),
        digits_number(r@) == n * vstd::arithmetic::power::pow(factor as int, k as nat),
{
    let mut d: Vec<u8> = digits_of(n);
    let mut i: u64 = 0;
    proof {
        vstd::arithmetic::power::lemma_pow0(factor as int);
    }
    while i < k
        invariant
            0 <= i <= k,
            factor < 10,
            are_digits(d@),
            digits_number(d@) == n * vstd::arithmetic::power::pow(factor as int, i as nat),
        decreases k - i,
    {
        proof {
            let p = vstd::arithmetic::power::pow(factor as int, i as nat);
            vstd::arithmetic::power::lemma_pow1(factor as int);
            vstd::arithmetic::power::lemma_pow_adds(factor as int, i as nat, 1);
            assert(n * p * factor == n * (p * factor)) by (nonlinear_arith);
        }
        d = times_digit(&d, factor);
        i = i + 1;
    }
    d
}

fn spell_exactly(bits: u64) -> (r: String)
    requires
        bits < INFINITE,
    ensures
        r@ == exact_text(bits),
{
    let parts: (u64, u64) = parts_of(bits);
    proof {
        if parts.1 >= 1075 {
            vstd::arithmetic::power::lemma_pow_positive(2, (parts.1 - 1075) as nat);
        } else {
            vstd::arithmetic::power::lemma_pow_positive(5, (1075 - parts.1) as nat);
        }
    }
    if parts.1 >= 1075 {
        let d: Vec<u8> = times_power(parts.0, 2, parts.1 - 1075);
        digits_text(&d)
    } else {
        let d: Vec<u8> = times_power(parts.0, 5, 1075 - parts.1);
        text::joined3(
            digits_text(&d).as_str(),
            "e-",
            text::decimal_text(1075 - parts.1).as_str(),
        )
    }
}

/// The sum of two doubles that are not negative; none where it is not finite.
pub open spec fn real_sum(a: (u64, Seq<char>), b: (u64, Seq<char>)) -> Option<(u64, Seq<char>)> {
    let bits = sum_of(order(a.0) as u64, order(b.0) as u64);
    if bits < INFINITE {
        double_of(exact_text(bits as u64))
    } else {
        None
    }
}

/// The sum of two doubles that are not negative; none where it is not finite.
pub fn sum(a: &Real, b: &Real) -> (r: Option<Real>)
    requires
        0 <= order(a.bits) < INFINITE,
        0 <= order(b.bits) < INFINITE,
    ensures
        real_of(r) == real_sum((a.bits, a.spelling@), (b.bits, b.spelling@)),
{
    let x: (u64, u64) = parts_of(order_of(a.bits) as u64);
    let y: (u64, u64) = parts_of(order_of(b.bits) as u64);
    let bits: u64 = if x.1 >= y.1 {
        add_ordered(x, y)
    } else {
        add_ordered(y, x)
    };
    if bits < INFINITE {
        read_double(spell_exactly(bits).as_str())
    } else {
        None
    }
}

/// The integer part of `n * 2^e`, where it fits 63 bits, and the largest 63-bit integer
/// where it does not.
pub open spec fn truncated(n: nat, e: int) -> int {
    let whole = if e >= 0 {
        (n * pow2(e as nat)) as int
    } else {
        (n / pow2((-e) as nat)) as int
    };
    if whole <= i64::MAX {
        whole
    } else {
        i64::MAX as int
    }
}

/// A double that is not negative times a small integer, as a double, then cut.
pub open spec fn scaled_part(bits: u64, factor: nat) -> int {
    let n = mantissa(bits) * factor;
    let s = excess(n);
    truncated(shifted(n, s), exponent(bits) - 1075 + s)
}

fn truncate(n: u64, e: i32) -> (r: i64)
    requires
        n <= TWO_53,
        -2000 < e < 2000,
    ensures
        r == truncated(n as nat, e as int),
{
    proof {
        vstd::arithmetic::power2::lemma2_to64();
        vstd::arithmetic::power2::lemma2_to64_rest();
    }
    if e >= 0 {
        if n == 0 {
            assert(0 * pow2(e as nat) == 0);
            return 0;
        }
        if e >= 63 {
            proof {
                if e > 63 {
                    vstd::arithmetic::power2::lemma_pow2_strictly_increases(63, e as nat);
                }
                assert(n * pow2(e as nat) >= pow2(e as nat)) by (nonlinear_arith)
                    requires
                        n >= 1,
                ;
            }
            return i64::MAX;
        }
        let p: u128 = power(e as u32);
        proof {
            vstd::arithmetic::power2::lemma_pow2_strictly_increases(e as nat, 64);
            assert(n * p <= 0x20_0000_0000_0000 * 0x1_0000_0000_0000_0000) by (nonlinear_arith)
                requires
                    n <= 0x20_0000_0000_0000,
                    p <= 0x1_0000_0000_0000_0000,
            ;
        }
        let whole: u128 = (n as u128) * p;
        if whole <= i64::MAX as u128 {
            whole as i64
        } else {
            i64::MAX
        }
    } else {
        let k: u32 = (-e) as u32;
        if k >= 64 {
            proof {
                vstd::arithmetic::power2::lemma_pow2_strictly_increases(53, k as nat);
                vstd::arithmetic::div_mod::lemma_basic_div(n as int, pow2(k as nat) as int);
            }
            return 0;
        }
        let whole: u128 = power(k);
        proof {
            vstd::arithmetic::power2::lemma_pow2_pos(k as nat);
            vstd::arithmetic::div_mod::lemma_div_is_ordered_by_denominator(
                n as int,
                1,
                whole as int,
            );
            vstd::arithmetic::div_mod::lemma_div_basics(n as int);
        }
        ((n as u128) / whole) as i64
    }
}

/// A double that is not negative times a small integer, as a double, then cut.
pub fn scaled_integer_part(bits: u64, factor: u64) -> (r: i64)
    requires
        bits < INFINITE,
        factor <= 1_000_000,
    ensures
        r == scaled_part(bits, factor as nat),
{
    let parts: (u64, u64) = parts_of(bits);
    assert(parts.0 * factor <= 0x20_0000_0000_0000 * 1_000_000) by (nonlinear_arith)
        requires
            parts.0 <= 0x20_0000_0000_0000,
            factor <= 1_000_000,
    ;
    let product: u128 = (parts.0 as u128) * (factor as u128);
    let scaled: (u64, u32) = round_to_53(product);
    truncate(scaled.0, parts.1 as i32 - 1075 + scaled.1 as i32)
}

} // verus!
