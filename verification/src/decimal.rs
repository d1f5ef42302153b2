//! Exact decimal values.
//!
//! Prices and sizes arrive on the wire as decimal strings. They are held as
//! exact decimals: a sign, an unsigned 96-bit mantissa and a scale of at
//! most 28, mirroring the value domain of `rust_decimal::Decimal`, which
//! does the parsing, printing and division. The mathematical value of a
//! decimal is the integer `uval` in units of 10^-28, so ordering and
//! arithmetic are stated and proved over plain integers; no floating point
//! is involved. Comparison, addition, subtraction and halving are verified
//! here and are exact: an operation either returns the exact result or
//! reports that the exact result has no 96-bit representation.

use vstd::prelude::*;
use vstd::arithmetic::div_mod::{
    lemma_fundamental_div_mod, lemma_add_mod_noop, lemma_sub_mod_noop, lemma_small_mod,
};

verus! {

/// Largest mantissa a decimal can carry: 2^96 - 1.
pub const MAX_MANTISSA: u128 = 79228162514264337593543950335;

/// Largest scale (number of fractional digits) a decimal can carry.
pub const MAX_SCALE: u32 = 28;

/// An exact decimal number: `(-1)^neg * mantissa * 10^(-scale)`.
#[derive(Debug, Clone, Copy)]
pub struct Dec {
    pub neg: bool,
    pub mantissa: u128,
    pub scale: u32,
}

/// 10^e as a mathematical integer.
pub open spec fn pow10(e: nat) -> int
    decreases e,
{
    if e == 0 {
        1
    } else {
        10 * pow10((e - 1) as nat)
    }
}

/// The magnitude, in units of 10^-28, of a mantissa `m` read at scale `s`.
pub open spec fn magv(m: int, s: int) -> int
    recommends
        0 <= s <= MAX_SCALE,
{
    m * pow10((MAX_SCALE - s) as nat)
}

/// A non-negative value (in units of 10^-28) has an exact decimal
/// representation: some mantissa of at most 96 bits at some scale.
pub open spec fn representable(v: int) -> bool {
    exists|m: int, s: int|
        0 <= m <= MAX_MANTISSA && 0 <= s <= MAX_SCALE && v == #[trigger] magv(m, s)
}

/// A non-negative value (in units of 10^-28) is exactly half of some
/// representable decimal: `2 * magv(m, s) == v` for a valid `(m, s)`.
pub open spec fn representable_half(v: int) -> bool {
    exists|m: int, s: int|
        0 <= m <= MAX_MANTISSA && 0 <= s <= MAX_SCALE && v == 2 * #[trigger] magv(m, s)
}

impl Dec {
    /// Well-formed: the mantissa fits in 96 bits and the scale is at most 28.
    pub open spec fn wf(self) -> bool {
        self.mantissa <= MAX_MANTISSA && self.scale <= MAX_SCALE
    }

    /// The value of the decimal as an integer in units of 10^-28.
    pub open spec fn uval(self) -> int {
        if self.neg {
            -magv(self.mantissa as int, self.scale as int)
        } else {
            magv(self.mantissa as int, self.scale as int)
        }
    }
}

proof fn lemma_pow10_pos(e: nat)
    ensures
        pow10(e) >= 1,
    decreases e,
{
    if e > 0 {
        lemma_pow10_pos((e - 1) as nat);
    }
}

proof fn lemma_pow10_add(a: nat, b: nat)
    ensures
        pow10(a + b) == pow10(a) * pow10(b),
    decreases a,
{
    if a == 0 {
    } else {
        lemma_pow10_add((a - 1) as nat, b);
        assert(pow10(a + b) == 10 * pow10((a + b - 1) as nat));
        assert(10 * (pow10((a - 1) as nat) * pow10(b)) == (10 * pow10((a - 1) as nat)) * pow10(b))
            by (nonlinear_arith);
    }
}

proof fn lemma_pow10_28()
    ensures
        pow10(28) == 10000000000000000000000000000,
{
    reveal_with_fuel(pow10, 29);
}

/// Cancellation: equal products with a positive common factor have equal
/// other factors.
proof fn lemma_mul_cancel(a: int, b: int, p: int)
    requires
        p >= 1,
        a * p == b * p,
    ensures
        a == b,
{
    assert(a == b) by (nonlinear_arith)
        requires
            p >= 1,
            a * p == b * p,
    ;
}

/// The least mantissa of a value: if a value is `big_m` read at scale
/// `big_s`, where `big_m` does not end in a zero digit (or `big_s` is 0),
/// then any representation `c * m` at any valid scale is at least `big_m`.
/// `c` generalizes over an extra constant factor (1 for plain
/// representations, 2 for halves).
proof fn lemma_min_rep(c: int, big_m: int, big_s: int, m: int, s: int)
    requires
        1 <= c <= 2,
        0 <= big_s <= MAX_SCALE,
        0 <= s <= MAX_SCALE,
        big_m >= 0,
        m >= 0,
        big_s > 0 ==> big_m % 10 != 0,
        c * magv(m, s) == magv(big_m, big_s),
    ensures
        c * m >= big_m,
{
    let ps = pow10((MAX_SCALE - s) as nat);
    let pb = pow10((MAX_SCALE - big_s) as nat);
    lemma_pow10_pos((MAX_SCALE - s) as nat);
    lemma_pow10_pos((MAX_SCALE - big_s) as nat);
    if s >= big_s {
        // pow10(28 - big_s) == pow10(28 - s) * pow10(s - big_s)
        let d = pow10((s - big_s) as nat);
        lemma_pow10_add((MAX_SCALE - s) as nat, (s - big_s) as nat);
        lemma_pow10_pos((s - big_s) as nat);
        assert(pb == ps * d);
        assert((c * m) * ps == c * (m * ps)) by (nonlinear_arith);
        assert(big_m * (ps * d) == (big_m * d) * ps) by (nonlinear_arith);
        lemma_mul_cancel(c * m, big_m * d, ps);
        assert(big_m * d >= big_m) by (nonlinear_arith)
            requires
                big_m >= 0,
                d >= 1,
        ;
    } else {
        // s < big_s, so big_s >= 1 and big_m does not end in 0; the
        // equation would force a factor of 10 into big_m: contradiction.
        let d = pow10((big_s - s) as nat);
        lemma_pow10_add((MAX_SCALE - big_s) as nat, (big_s - s) as nat);
        assert(ps == pb * d);
        assert(c * (m * (pb * d)) == ((c * m) * d) * pb) by (nonlinear_arith);
        assert(big_m * pb == ((c * m) * d) * pb);
        lemma_mul_cancel(big_m, (c * m) * d, pb);
        let k = (big_s - s) as nat;
        assert(k >= 1);
        assert(d == 10 * pow10((k - 1) as nat));
        let pw = pow10((k - 1) as nat);
        let q = (c * m) * pw;
        assert((c * m) * (10 * pw) == 10 * ((c * m) * pw)) by (nonlinear_arith);
        assert(big_m == 10 * q);
        assert((10 * q) % 10 == 0) by (nonlinear_arith);
        assert(false);
    }
}

/// No representation at all exists for a value whose least mantissa
/// exceeds the largest mantissa.
proof fn lemma_not_representable(big_m: int, big_s: int)
    requires
        0 <= big_s <= MAX_SCALE,
        big_m > MAX_MANTISSA,
        big_s > 0 ==> big_m % 10 != 0,
    ensures
        !representable(magv(big_m, big_s)),
{
    assert forall|m: int, s: int|
        0 <= m <= MAX_MANTISSA && 0 <= s <= MAX_SCALE implies magv(big_m, big_s) != #[trigger] magv(
        m,
        s,
    ) by {
        if magv(m, s) == magv(big_m, big_s) {
            assert(1 * magv(m, s) == magv(big_m, big_s));
            lemma_min_rep(1, big_m, big_s, m, s);
        }
    }
}

/// No value with least mantissa above twice the largest mantissa is the
/// double of a representable decimal.
proof fn lemma_not_representable_half(big_m: int, big_s: int)
    requires
        0 <= big_s <= MAX_SCALE,
        big_m > 2 * MAX_MANTISSA,
        big_s > 0 ==> big_m % 10 != 0,
    ensures
        !representable_half(magv(big_m, big_s)),
{
    assert forall|m: int, s: int|
        0 <= m <= MAX_MANTISSA && 0 <= s <= MAX_SCALE implies magv(big_m, big_s) != 2
        * #[trigger] magv(m, s) by {
        if 2 * magv(m, s) == magv(big_m, big_s) {
            assert(2 * magv(m, s) == magv(big_m, big_s));
            lemma_min_rep(2, big_m, big_s, m, s);
        }
    }
}

/// 10^e for e up to 28.
fn p10(e: u32) -> (r: u128)
    requires
        e <= MAX_SCALE,
    ensures
        r == pow10(e as nat),
        r >= 1,
{
    let mut r: u128 = 1;
    let mut i: u32 = 0;
    proof {
        lemma_pow10_28();
    }
    while i < e
        invariant
            i <= e <= MAX_SCALE,
            r == pow10(i as nat),
            pow10(28) == 10000000000000000000000000000,
        decreases e - i,
    {
        proof {
            lemma_pow10_add(i as nat, ((e - i) as nat));
            lemma_pow10_pos(((e - i) as nat));
            lemma_pow10_pos(i as nat);
            assert(pow10(i as nat) * pow10((e - i) as nat) == pow10(e as nat));
            assert(pow10(i as nat) * 1 <= pow10(i as nat) * pow10((e - i) as nat)) by (
            nonlinear_arith)
                requires
                    pow10(i as nat) >= 1,
                    pow10((e - i) as nat) >= 1,
            ;
            lemma_pow10_add(e as nat, (28 - e) as nat);
            lemma_pow10_pos((28 - e) as nat);
            assert(pow10(e as nat) * 1 <= pow10(e as nat) * pow10((28 - e) as nat)) by (
            nonlinear_arith)
                requires
                    pow10(e as nat) >= 1,
                    pow10((28 - e) as nat) >= 1,
            ;
            // r * 10 stays within u128: r <= pow10(27) and 10 * pow10(27) == pow10(28)
        }
        r = r * 10;
        i = i + 1;
    }
    proof {
        lemma_pow10_pos(e as nat);
    }
    r
}

/// Strip trailing zero digits from a mantissa, reducing the scale, until
/// either the scale is zero or the last digit is non-zero. The value read
/// at scale 28 units is unchanged.
fn strip_zeros(m0: u128, s0: u32) -> (r: (u128, u32))
    requires
        s0 <= MAX_SCALE,
    ensures
        r.1 <= s0,
        r.0 <= m0,
        magv(r.0 as int, r.1 as int) == magv(m0 as int, s0 as int),
        r.1 > 0 ==> r.0 % 10 != 0,
        r.0 == 0 ==> r.1 == 0,
        m0 <= MAX_MANTISSA ==> r.0 <= MAX_MANTISSA,
{
    let mut m = m0;
    let mut s = s0;
    while s > 0 && m % 10 == 0
        invariant
            s <= s0 <= MAX_SCALE,
            m <= m0,
            magv(m as int, s as int) == magv(m0 as int, s0 as int),
        decreases s,
    {
        proof {
            let q = m / 10;
            assert(m == 10 * q + m % 10) by {
                lemma_fundamental_div_mod(m as int, 10);
            }
            assert(m == 10 * q);
            lemma_pow10_add((MAX_SCALE - s) as nat, 1nat);
            reveal_with_fuel(pow10, 2);
            assert(pow10(1) == 10);
            assert(magv(q as int, (s - 1) as int) == q * (pow10((MAX_SCALE - s) as nat) * 10));
            assert(q * (pow10((MAX_SCALE - s) as nat) * 10) == (10 * q) * pow10(
                (MAX_SCALE - s) as nat,
            )) by (nonlinear_arith);
            assert(magv(q as int, (s - 1) as int) == magv(m as int, s as int));
        }
        m = m / 10;
        s = s - 1;
    }
    (m, s)
}

/// Compare two magnitudes: `-1`, `0` or `1` as the first is below, equal
/// to, or above the second.
fn mag_cmp(am: u128, ascale: u32, bm: u128, bscale: u32) -> (r: i8)
    requires
        ascale <= MAX_SCALE,
        bscale <= MAX_SCALE,
    ensures
        r == -1 <==> magv(am as int, ascale as int) < magv(bm as int, bscale as int),
        r == 0 <==> magv(am as int, ascale as int) == magv(bm as int, bscale as int),
        r == 1 <==> magv(am as int, ascale as int) > magv(bm as int, bscale as int),
{
    let pa = p10(ascale);
    let pb = p10(bscale);
    let qa = am / pa;
    let ra = am % pa;
    let qb = bm / pb;
    let rb = bm % pb;
    let pca = p10(MAX_SCALE - ascale);
    let pcb = p10(MAX_SCALE - bscale);
    proof {
        lemma_decompose(am as int, ascale as int);
        lemma_decompose(bm as int, bscale as int);
        lemma_pow10_28();
    }
    let rsa = ra * pca;
    let rsb = rb * pcb;
    proof {
        let k = pow10(28);
        let va = magv(am as int, ascale as int);
        let vb = magv(bm as int, bscale as int);
        assert(va == qa * k + rsa && 0 <= rsa < k);
        assert(vb == qb * k + rsb && 0 <= rsb < k);
        lemma_lex_cmp(qa as int, rsa as int, qb as int, rsb as int, k);
    }
    if qa < qb {
        -1
    } else if qa > qb {
        1
    } else if rsa < rsb {
        -1
    } else if rsa > rsb {
        1
    } else {
        0
    }
}

/// A mantissa read at scale `s` splits into a whole part and a fractional
/// part below 10^28.
proof fn lemma_decompose(m: int, s: int)
    requires
        0 <= m,
        0 <= s <= MAX_SCALE,
    ensures
        magv(m, s) == (m / pow10(s as nat)) * pow10(28) + (m % pow10(s as nat)) * pow10(
            (MAX_SCALE - s) as nat,
        ),
        0 <= (m % pow10(s as nat)) * pow10((MAX_SCALE - s) as nat) < pow10(28),
        (m % pow10(s as nat)) * pow10((MAX_SCALE - s) as nat) <= 170141183460469231731687303715884105727,
{
    let p = pow10(s as nat);
    let pc = pow10((MAX_SCALE - s) as nat);
    lemma_pow10_pos(s as nat);
    lemma_pow10_pos((MAX_SCALE - s) as nat);
    lemma_pow10_add(s as nat, (MAX_SCALE - s) as nat);
    assert(p * pc == pow10(28));
    let q = m / p;
    let r = m % p;
    lemma_fundamental_div_mod(m, p);
    assert(m == p * q + r);
    assert(0 <= r < p);
    assert((p * q + r) * pc == q * (p * pc) + r * pc) by (nonlinear_arith);
    assert(magv(m, s) == q * pow10(28) + r * pc);
    assert(r * pc < p * pc) by (nonlinear_arith)
        requires
            0 <= r < p,
            pc >= 1,
    ;
    assert(r * pc >= 0) by (nonlinear_arith)
        requires
            r >= 0,
            pc >= 1,
    ;
    lemma_pow10_28();
}

/// Lifting a mantissa from a coarse scale to a fine one multiplies it by
/// a power of ten and keeps the magnitude.
proof fn lemma_lift(m: int, s_from: int, s_to: int)
    requires
        0 <= s_from <= s_to <= MAX_SCALE,
    ensures
        magv(m, s_from) == magv(m * pow10((s_to - s_from) as nat), s_to),
{
    let d = pow10((s_to - s_from) as nat);
    let pt = pow10((MAX_SCALE - s_to) as nat);
    lemma_pow10_add((s_to - s_from) as nat, (MAX_SCALE - s_to) as nat);
    assert(pow10((MAX_SCALE - s_from) as nat) == d * pt);
    assert(m * (d * pt) == (m * d) * pt) by (nonlinear_arith);
}

/// A lifted mantissa plus the fine-scale mantissa still ends in the
/// fine-scale mantissa's last digit.
proof fn lemma_lift_mod(x: int, d: int, mb: int)
    requires
        x >= 0,
        d >= 1,
        mb >= 0,
    ensures
        (x * (10 * d) + mb) % 10 == mb % 10,
{
    let lift = x * (10 * d);
    assert(x * (10 * d) == 10 * (x * d)) by (nonlinear_arith);
    assert((10 * (x * d)) % 10 == 0) by (nonlinear_arith);
    lemma_add_mod_noop(lift, mb, 10);
    assert((lift % 10 + mb % 10) % 10 == (lift + mb) % 10);
    assert(0 <= mb % 10 < 10);
    lemma_small_mod((mb % 10) as nat, 10nat);
}

/// Exact addition of two magnitudes. `None` exactly when the sum has no
/// 96-bit representation.
fn mag_add(am: u128, ascale: u32, bm: u128, bscale: u32) -> (r: Option<(u128, u32)>)
    requires
        am <= MAX_MANTISSA,
        ascale <= MAX_SCALE,
        bm <= MAX_MANTISSA,
        bscale <= MAX_SCALE,
    ensures
        ({
            let v = magv(am as int, ascale as int) + magv(bm as int, bscale as int);
            match r {
                Option::Some(t) => t.0 <= MAX_MANTISSA && t.1 <= MAX_SCALE && magv(
                    t.0 as int,
                    t.1 as int,
                ) == v,
                Option::None => !representable(v),
            }
        }),
{
    let ghost v = magv(am as int, ascale as int) + magv(bm as int, bscale as int);
    let (xm0, xs0) = strip_zeros(am, ascale);
    let (ym0, ys0) = strip_zeros(bm, bscale);
    // order the two so that xm is the coarser (smaller scale) one
    let (xm, xs, ym, ys) = if xs0 <= ys0 {
        (xm0, xs0, ym0, ys0)
    } else {
        (ym0, ys0, xm0, xs0)
    };
    proof {
        assert(v == magv(xm as int, xs as int) + magv(ym as int, ys as int));
    }
    if xs == ys {
        let m = xm + ym;
        proof {
            assert(magv(xm as int, xs as int) + magv(ym as int, xs as int) == (xm + ym) * pow10(
                (MAX_SCALE - xs) as nat,
            )) by (nonlinear_arith);
        }
        let (mn, sn) = strip_zeros(m, xs);
        if mn <= MAX_MANTISSA {
            Some((mn, sn))
        } else {
            proof {
                lemma_not_representable(mn as int, sn as int);
            }
            None
        }
    } else {
        let delta = ys - xs;
        let pd = p10(delta);
        proof {
            lemma_lift(xm as int, xs as int, ys as int);
            assert(v == (xm * pow10((ys - xs) as nat)) * pow10((MAX_SCALE - ys) as nat) + ym
                * pow10((MAX_SCALE - ys) as nat));
            assert((xm * pow10((ys - xs) as nat)) * pow10((MAX_SCALE - ys) as nat) + ym * pow10(
                (MAX_SCALE - ys) as nat,
            ) == (xm * pow10((ys - xs) as nat) + ym) * pow10((MAX_SCALE - ys) as nat)) by (
            nonlinear_arith);
        }
        let ghost mtotal = xm * pow10((ys - xs) as nat) + ym;
        proof {
            assert(v == magv(mtotal, ys as int));
            // ym ends in a non-zero digit: ys > xs >= 0, and a zero ym
            // would have been stripped to scale 0
            assert(ys > 0);
            assert(ym % 10 != 0);
            assert(pow10((ys - xs) as nat) == 10 * pow10((ys - xs - 1) as nat));
            lemma_lift_mod(xm as int, pow10((ys - xs - 1) as nat), ym as int);
            assert(mtotal % 10 == ym % 10);
            lemma_pow10_pos((ys - xs - 1) as nat);
            assert(xm * (10 * pow10((ys - xs - 1) as nat)) >= 0) by (nonlinear_arith)
                requires
                    xm >= 0,
                    pow10((ys - xs - 1) as nat) >= 1,
            ;
        }
        match xm.checked_mul(pd) {
            None => {
                proof {
                    assert(mtotal > MAX_MANTISSA);
                    lemma_not_representable(mtotal, ys as int);
                }
                None
            },
            Some(lift) => {
                match lift.checked_add(ym) {
                    None => {
                        proof {
                            assert(mtotal > MAX_MANTISSA);
                            lemma_not_representable(mtotal, ys as int);
                        }
                        None
                    },
                    Some(m) => {
                        if m <= MAX_MANTISSA {
                            Some((m, ys))
                        } else {
                            proof {
                                lemma_not_representable(mtotal, ys as int);
                            }
                            None
                        }
                    },
                }
            },
        }
    }
}

/// Exact subtraction of a smaller magnitude from a larger one. `None`
/// exactly when the difference has no 96-bit representation.
fn mag_sub(am: u128, ascale: u32, bm: u128, bscale: u32) -> (r: Option<(u128, u32)>)
    requires
        am <= MAX_MANTISSA,
        ascale <= MAX_SCALE,
        bm <= MAX_MANTISSA,
        bscale <= MAX_SCALE,
        magv(am as int, ascale as int) >= magv(bm as int, bscale as int),
    ensures
        ({
            let v = magv(am as int, ascale as int) - magv(bm as int, bscale as int);
            match r {
                Option::Some(t) => t.0 <= MAX_MANTISSA && t.1 <= MAX_SCALE && magv(
                    t.0 as int,
                    t.1 as int,
                ) == v,
                Option::None => !representable(v),
            }
        }),
{
    let ghost v = magv(am as int, ascale as int) - magv(bm as int, bscale as int);
    let (xm, xs) = strip_zeros(am, ascale);
    let (ym, ys) = strip_zeros(bm, bscale);
    proof {
        assert(v == magv(xm as int, xs as int) - magv(ym as int, ys as int));
    }
    if xs == ys {
        proof {
            let pc = pow10((MAX_SCALE - xs) as nat);
            lemma_pow10_pos((MAX_SCALE - xs) as nat);
            assert(xm >= ym) by (nonlinear_arith)
                requires
                    pc >= 1,
                    xm * pc >= ym * pc,
            ;
            assert(xm * pc - ym * pc == (xm - ym) * pc) by (nonlinear_arith);
        }
        let m = xm - ym;
        let (mn, sn) = strip_zeros(m, xs);
        Some((mn, sn))
    } else if xs < ys {
        // the minuend is coarser: lift it to the subtrahend's scale
        let delta = ys - xs;
        let pd = p10(delta);
        proof {
            lemma_lift(xm as int, xs as int, ys as int);
            assert((xm * pow10((ys - xs) as nat)) * pow10((MAX_SCALE - ys) as nat) - ym * pow10(
                (MAX_SCALE - ys) as nat,
            ) == (xm * pow10((ys - xs) as nat) - ym) * pow10((MAX_SCALE - ys) as nat)) by (
            nonlinear_arith);
        }
        let ghost mtotal = xm * pow10((ys - xs) as nat) - ym;
        proof {
            assert(v == magv(mtotal, ys as int));
            assert(ys > 0);
            assert(ym % 10 != 0);
            // mtotal's last digit is 10 minus ym's, hence non-zero
            let lift = xm * pow10((ys - xs) as nat);
            assert(pow10((ys - xs) as nat) == 10 * pow10((ys - xs - 1) as nat));
            assert(xm * (10 * pow10((ys - xs - 1) as nat)) == 10 * (xm * pow10(
                (ys - xs - 1) as nat,
            ))) by (nonlinear_arith);
            assert((10 * (xm * pow10((ys - xs - 1) as nat))) % 10 == 0) by (nonlinear_arith);
            assert(lift % 10 == 0);
            lemma_sub_mod_noop(lift, ym as int, 10);
            assert((lift % 10 - ym % 10) % 10 == (lift - ym) % 10);
            assert((0 - ym % 10) % 10 == 10 - ym % 10) by (nonlinear_arith)
                requires
                    0 < ym % 10 < 10,
            ;
            assert(mtotal % 10 != 0);
            // the difference is non-negative since the total magnitude is
            lemma_pow10_pos((MAX_SCALE - ys) as nat);
            assert(mtotal >= 0) by (nonlinear_arith)
                requires
                    mtotal * pow10((MAX_SCALE - ys) as nat) >= 0,
                    pow10((MAX_SCALE - ys) as nat) >= 1,
            ;
        }
        match xm.checked_mul(pd) {
            None => {
                proof {
                    assert(xm * pow10((ys - xs) as nat) > u128::MAX);
                    assert(mtotal > MAX_MANTISSA);
                    lemma_not_representable(mtotal, ys as int);
                }
                None
            },
            Some(lift) => {
                let m = lift - ym;
                if m <= MAX_MANTISSA {
                    Some((m, ys))
                } else {
                    proof {
                        lemma_not_representable(mtotal, ys as int);
                    }
                    None
                }
            },
        }
    } else {
        // the subtrahend is coarser: lift it; the lift cannot overflow
        // because it stays below the minuend's mantissa
        let delta = xs - ys;
        let pd = p10(delta);
        proof {
            lemma_lift(ym as int, ys as int, xs as int);
            let liftb = ym * pow10((xs - ys) as nat);
            let pc = pow10((MAX_SCALE - xs) as nat);
            lemma_pow10_pos((MAX_SCALE - xs) as nat);
            assert(liftb <= xm) by (nonlinear_arith)
                requires
                    pc >= 1,
                    liftb * pc <= xm * pc,
            ;
            assert(xm * pc - liftb * pc == (xm - liftb) * pc) by (nonlinear_arith);
        }
        let lift = ym * pd;
        let m = xm - lift;
        let (mn, sn) = strip_zeros(m, xs);
        Some((mn, sn))
    }
}

/// Any decimal whose double equals an odd mantissa `mn` read at scale
/// `sn` has a mantissa of at least `5 * mn`.
proof fn lemma_half_odd_min(mn: int, sn: int, m: int, s: int)
    requires
        0 <= sn <= MAX_SCALE,
        0 <= s <= MAX_SCALE,
        mn >= 0,
        m >= 0,
        mn % 2 == 1,
        2 * magv(m, s) == magv(mn, sn),
    ensures
        m >= 5 * mn,
{
    let ps = pow10((MAX_SCALE - s) as nat);
    let pn = pow10((MAX_SCALE - sn) as nat);
    lemma_pow10_pos((MAX_SCALE - s) as nat);
    lemma_pow10_pos((MAX_SCALE - sn) as nat);
    if s > sn {
        // cancel the finer power: 2 * m == mn * 10^(s - sn)
        let d = pow10((s - sn) as nat);
        lemma_pow10_add((MAX_SCALE - s) as nat, (s - sn) as nat);
        assert(pn == ps * d);
        assert(2 * (m * ps) == (2 * m) * ps) by (nonlinear_arith);
        assert(mn * (ps * d) == (mn * d) * ps) by (nonlinear_arith);
        lemma_mul_cancel(2 * m, mn * d, ps);
        let k = (s - sn) as nat;
        assert(k >= 1);
        assert(d == 10 * pow10((k - 1) as nat));
        let pw = pow10((k - 1) as nat);
        lemma_pow10_pos((k - 1) as nat);
        assert(mn * (10 * pw) == 2 * (5 * (mn * pw))) by (nonlinear_arith);
        assert(2 * m == 2 * (5 * (mn * pw)));
        assert(m == 5 * (mn * pw));
        assert(5 * (mn * pw) >= 5 * mn) by (nonlinear_arith)
            requires
                mn >= 0,
                pw >= 1,
        ;
    } else if s == sn {
        // 2 * m == mn: even equals odd, impossible
        assert(2 * (m * ps) == (2 * m) * ps) by (nonlinear_arith);
        lemma_mul_cancel(2 * m, mn, ps);
        assert((2 * m) % 2 == 0) by (nonlinear_arith);
        assert(false);
    } else {
        // s < sn: 2 * m * 10^(sn - s) == mn: even equals odd, impossible
        let d = pow10((sn - s) as nat);
        lemma_pow10_add((MAX_SCALE - sn) as nat, (sn - s) as nat);
        assert(ps == pn * d);
        assert(2 * (m * (pn * d)) == (2 * (m * d)) * pn) by (nonlinear_arith);
        assert(mn * pn == (2 * (m * d)) * pn);
        lemma_mul_cancel(mn, 2 * (m * d), pn);
        assert((2 * (m * d)) % 2 == 0) by (nonlinear_arith);
        assert(false);
    }
}

/// Exact halving of a mantissa read at a scale; the mantissa may exceed
/// 96 bits (an unreduced sum). `None` exactly when no decimal doubles to
/// this value.
fn mag_half(m0: u128, s0: u32) -> (r: Option<(u128, u32)>)
    requires
        s0 <= MAX_SCALE,
    ensures
        ({
            let v = magv(m0 as int, s0 as int);
            match r {
                Option::Some(t) => t.0 <= MAX_MANTISSA && t.1 <= MAX_SCALE && 2 * magv(
                    t.0 as int,
                    t.1 as int,
                ) == v,
                Option::None => !representable_half(v),
            }
        }),
{
    let ghost v = magv(m0 as int, s0 as int);
    let (mn, sn) = strip_zeros(m0, s0);
    if mn > 2 * MAX_MANTISSA {
        proof {
            lemma_not_representable_half(mn as int, sn as int);
        }
        None
    } else if mn % 2 == 0 {
        let h = mn / 2;
        proof {
            lemma_fundamental_div_mod(mn as int, 2);
            assert(mn == 2 * h);
            assert(2 * ((h as int) * pow10((MAX_SCALE - sn) as nat)) == (2 * h) * pow10(
                (MAX_SCALE - sn) as nat,
            )) by (nonlinear_arith);
        }
        Some((h, sn))
    } else if sn == MAX_SCALE {
        proof {
            assert(pow10(0) == 1);
            assert(magv(mn as int, sn as int) == mn * 1);
            assert forall|m: int, s: int|
                0 <= m <= MAX_MANTISSA && 0 <= s <= MAX_SCALE implies magv(mn as int, sn as int)
                != 2 * #[trigger] magv(m, s) by {
                if magv(mn as int, sn as int) == 2 * magv(m, s) {
                    lemma_half_odd_min(mn as int, sn as int, m, s);
                    // m >= 5 * mn, but also 2 * m * pow10(0) == mn
                    lemma_pow10_pos((MAX_SCALE - s) as nat);
                    assert(2 * (m * pow10((MAX_SCALE - s) as nat)) >= 2 * m) by (nonlinear_arith)
                        requires
                            m >= 0,
                            pow10((MAX_SCALE - s) as nat) >= 1,
                    ;
                    assert(mn >= 2 * m >= 2 * (5 * mn));
                    assert(mn == 0);
                    assert(false);
                }
            }
        }
        None
    } else {
        let m5 = mn * 5;
        proof {
            reveal_with_fuel(pow10, 2);
            assert(pow10((MAX_SCALE - sn) as nat) == 10 * pow10((MAX_SCALE - sn - 1) as nat));
            assert(2 * ((5 * (mn as int)) * pow10((MAX_SCALE - sn - 1) as nat)) == (mn as int) * (
            10 * pow10((MAX_SCALE - sn - 1) as nat))) by (nonlinear_arith);
        }
        if m5 <= MAX_MANTISSA {
            Some((m5, sn + 1))
        } else {
            proof {
                assert forall|m: int, s: int|
                    0 <= m <= MAX_MANTISSA && 0 <= s <= MAX_SCALE implies magv(mn as int, sn as int)
                    != 2 * #[trigger] magv(m, s) by {
                    if magv(mn as int, sn as int) == 2 * magv(m, s) {
                        lemma_half_odd_min(mn as int, sn as int, m, s);
                    }
                }
            }
            None
        }
    }
}

/// Exact mean of two magnitudes. `None` exactly when no decimal doubles
/// to their sum.
fn mag_mean(am: u128, ascale: u32, bm: u128, bscale: u32) -> (r: Option<(u128, u32)>)
    requires
        am <= MAX_MANTISSA,
        ascale <= MAX_SCALE,
        bm <= MAX_MANTISSA,
        bscale <= MAX_SCALE,
    ensures
        ({
            let v = magv(am as int, ascale as int) + magv(bm as int, bscale as int);
            match r {
                Option::Some(t) => t.0 <= MAX_MANTISSA && t.1 <= MAX_SCALE && 2 * magv(
                    t.0 as int,
                    t.1 as int,
                ) == v,
                Option::None => !representable_half(v),
            }
        }),
{
    let ghost v = magv(am as int, ascale as int) + magv(bm as int, bscale as int);
    let (xm0, xs0) = strip_zeros(am, ascale);
    let (ym0, ys0) = strip_zeros(bm, bscale);
    let (xm, xs, ym, ys) = if xs0 <= ys0 {
        (xm0, xs0, ym0, ys0)
    } else {
        (ym0, ys0, xm0, xs0)
    };
    proof {
        assert(v == magv(xm as int, xs as int) + magv(ym as int, ys as int));
    }
    if xs == ys {
        let m = xm + ym;
        proof {
            assert(magv(xm as int, xs as int) + magv(ym as int, xs as int) == (xm + ym) * pow10(
                (MAX_SCALE - xs) as nat,
            )) by (nonlinear_arith);
        }
        mag_half(m, xs)
    } else {
        let delta = ys - xs;
        let pd = p10(delta);
        proof {
            lemma_lift(xm as int, xs as int, ys as int);
            assert((xm * pow10((ys - xs) as nat)) * pow10((MAX_SCALE - ys) as nat) + ym * pow10(
                (MAX_SCALE - ys) as nat,
            ) == (xm * pow10((ys - xs) as nat) + ym) * pow10((MAX_SCALE - ys) as nat)) by (
            nonlinear_arith);
        }
        let ghost mtotal = xm * pow10((ys - xs) as nat) + ym;
        proof {
            assert(v == magv(mtotal, ys as int));
            assert(ys > 0);
            assert(ym % 10 != 0);
            assert(pow10((ys - xs) as nat) == 10 * pow10((ys - xs - 1) as nat));
            lemma_lift_mod(xm as int, pow10((ys - xs - 1) as nat), ym as int);
            assert(mtotal % 10 == ym % 10);
            lemma_pow10_pos((ys - xs - 1) as nat);
            assert(xm * (10 * pow10((ys - xs - 1) as nat)) >= 0) by (nonlinear_arith)
                requires
                    xm >= 0,
                    pow10((ys - xs - 1) as nat) >= 1,
            ;
        }
        match xm.checked_mul(pd) {
            None => {
                proof {
                    assert(mtotal > 2 * MAX_MANTISSA);
                    lemma_not_representable_half(mtotal, ys as int);
                }
                None
            },
            Some(lift) => {
                match lift.checked_add(ym) {
                    None => {
                        proof {
                            assert(mtotal > 2 * MAX_MANTISSA);
                            lemma_not_representable_half(mtotal, ys as int);
                        }
                        None
                    },
                    Some(m) => mag_half(m, ys),
                }
            },
        }
    }
}

/// Lexicographic comparison of `q * k + r` pairs with `0 <= r < k`.
proof fn lemma_lex_cmp(qa: int, ra: int, qb: int, rb: int, k: int)
    requires
        k >= 1,
        0 <= ra < k,
        0 <= rb < k,
    ensures
        qa * k + ra < qb * k + rb <==> (qa < qb || (qa == qb && ra < rb)),
        qa * k + ra == qb * k + rb <==> (qa == qb && ra == rb),
{
    assert(qa * k + ra < qb * k + rb <==> (qa < qb || (qa == qb && ra < rb))) by (nonlinear_arith)
        requires
            k >= 1,
            0 <= ra < k,
            0 <= rb < k,
    ;
    assert(qa * k + ra == qb * k + rb <==> (qa == qb && ra == rb)) by (nonlinear_arith)
        requires
            k >= 1,
            0 <= ra < k,
            0 <= rb < k,
    ;
}

/// The absolute value of an integer.
pub open spec fn abs_val(v: int) -> int {
    if v < 0 {
        -v
    } else {
        v
    }
}

/// A sign, mantissa and scale triple read as a `Dec`.
pub open spec fn dec_of_triple(t: (bool, u128, u32)) -> Dec {
    Dec { neg: t.0, mantissa: t.1, scale: t.2 }
}

/// A magnitude is zero exactly when its mantissa is, and otherwise at
/// least its mantissa.
proof fn lemma_mag_sign(m: int, s: int)
    requires
        0 <= s <= MAX_SCALE,
        m >= 0,
    ensures
        magv(m, s) >= m,
        m == 0 <==> magv(m, s) == 0,
{
    lemma_pow10_pos((MAX_SCALE - s) as nat);
    assert(m * pow10((MAX_SCALE - s) as nat) >= m * 1) by (nonlinear_arith)
        requires
            m >= 0,
            pow10((MAX_SCALE - s) as nat) >= 1,
    ;
    assert(m > 0 ==> m * pow10((MAX_SCALE - s) as nat) > 0) by (nonlinear_arith)
        requires
            pow10((MAX_SCALE - s) as nat) >= 1,
    ;
    assert(0 * pow10((MAX_SCALE - s) as nat) == 0) by (nonlinear_arith);
}

/// The canonical representation of a value: well-formed, no trailing
/// zero digit unless the scale is zero, and zero itself is
/// `(false, 0, 0)`.
pub open spec fn is_normal(d: Dec) -> bool {
    &&& d.wf()
    &&& (d.scale > 0 ==> d.mantissa % 10 != 0)
    &&& (d.mantissa == 0 ==> d.scale == 0 && !d.neg)
}

/// The canonical representation of a value given in units of 10^-28;
/// meaningful whenever some representation exists.
pub open spec fn normal_rep(v: int) -> Dec {
    choose|d: Dec| is_normal(d) && d.uval() == v
}

/// Ten's powers grow strictly.
proof fn lemma_pow10_strict_mono(a: nat, b: nat)
    requires
        a < b,
    ensures
        pow10(a) < pow10(b),
{
    lemma_pow10_add(a, (b - a) as nat);
    lemma_pow10_pos(a);
    lemma_pow10_pos(((b - a) - 1) as nat);
    assert(pow10((b - a) as nat) == 10 * pow10(((b - a) - 1) as nat));
    assert(pow10(a) * pow10((b - a) as nat) > pow10(a)) by (nonlinear_arith)
        requires
            pow10(a) >= 1,
            pow10((b - a) as nat) >= 10,
    ;
}

/// A value has at most one canonical representation.
pub proof fn lemma_normal_unique(x: Dec, y: Dec)
    requires
        is_normal(x),
        is_normal(y),
        x.uval() == y.uval(),
    ensures
        x == y,
{
    lemma_mag_sign(x.mantissa as int, x.scale as int);
    lemma_mag_sign(y.mantissa as int, y.scale as int);
    if x.uval() == 0 {
        // zero has the one canonical form (false, 0, 0)
        assert(x.mantissa == 0 && y.mantissa == 0);
    } else {
        // equal signs, then equal magnitudes
        assert(x.neg == y.neg);
        let xm = x.mantissa as int;
        let ym = y.mantissa as int;
        let xs = x.scale as int;
        let ys = y.scale as int;
        assert(magv(xm, xs) == magv(ym, ys));
        assert(1 * magv(xm, xs) == magv(ym, ys));
        assert(1 * magv(ym, ys) == magv(xm, xs));
        lemma_min_rep(1, ym, ys, xm, xs);
        lemma_min_rep(1, xm, xs, ym, ys);
        assert(xm == ym);
        assert(xm >= 1);
        // equal mantissas force equal scales
        let px = pow10((MAX_SCALE - xs) as nat);
        let py = pow10((MAX_SCALE - ys) as nat);
        assert(xm * px == xm * py);
        assert(px * xm == py * xm) by (nonlinear_arith)
            requires
                xm * px == xm * py,
        ;
        lemma_mul_cancel(px, py, xm);
        if xs < ys {
            lemma_pow10_strict_mono((MAX_SCALE - ys) as nat, (MAX_SCALE - xs) as nat);
            assert(false);
        } else if xs > ys {
            lemma_pow10_strict_mono((MAX_SCALE - xs) as nat, (MAX_SCALE - ys) as nat);
            assert(false);
        }
    }
}

/// A canonical decimal is the canonical representation of its own value.
pub proof fn lemma_normal_rep_is(d: Dec)
    requires
        is_normal(d),
    ensures
        normal_rep(d.uval()) == d,
{
    let c = normal_rep(d.uval());
    assert(is_normal(d) && d.uval() == d.uval());
    assert(is_normal(c) && c.uval() == d.uval());
    lemma_normal_unique(c, d);
}

/// Reduce a decimal to its canonical representation.
fn normalized(d: &Dec) -> (r: Dec)
    requires
        d.wf(),
    ensures
        is_normal(r),
        r.uval() == d.uval(),
{
    let (m, s) = strip_zeros(d.mantissa, d.scale);
    proof {
        lemma_mag_sign(m as int, s as int);
        lemma_mag_sign(d.mantissa as int, d.scale as int);
    }
    Dec { neg: d.neg && m > 0, mantissa: m, scale: s }
}

/// The value of a well-formed non-negative decimal is representable: it
/// is its own witness.
pub proof fn lemma_dec_representable(d: Dec)
    requires
        d.wf(),
        d.uval() >= 0,
    ensures
        representable(d.uval()),
{
    lemma_mag_sign(d.mantissa as int, d.scale as int);
    if d.neg {
        // the magnitude must be zero, and zero is represented at scale 0
        lemma_mag_sign(0, 0);
        assert(d.uval() == magv(0, 0));
    } else {
        assert(d.uval() == magv(d.mantissa as int, d.scale as int));
    }
}

impl Dec {
    /// Zero, canonically represented.
    pub fn zero() -> (r: Dec)
        ensures
            r.wf(),
            r.uval() == 0,
    {
        let r = Dec { neg: false, mantissa: 0, scale: 0 };
        proof {
            lemma_mag_sign(0, 0);
        }
        r
    }

    /// The same magnitude with the opposite sign.
    pub fn negated(&self) -> (r: Dec)
        ensures
            r.wf() == self.wf(),
            r.uval() == -self.uval(),
    {
        Dec { neg: !self.neg, mantissa: self.mantissa, scale: self.scale }
    }

    /// Whether the value is exactly zero.
    pub fn is_zero(&self) -> (r: bool)
        requires
            self.wf(),
        ensures
            r == (self.uval() == 0),
    {
        proof {
            lemma_mag_sign(self.mantissa as int, self.scale as int);
        }
        self.mantissa == 0
    }

    /// Three-way comparison by value: `-1`, `0` or `1` as `self` is below,
    /// equal to, or above `other`.
    pub fn compare(&self, other: &Dec) -> (r: i8)
        requires
            self.wf(),
            other.wf(),
        ensures
            r == -1 <==> self.uval() < other.uval(),
            r == 0 <==> self.uval() == other.uval(),
            r == 1 <==> self.uval() > other.uval(),
    {
        proof {
            lemma_mag_sign(self.mantissa as int, self.scale as int);
            lemma_mag_sign(other.mantissa as int, other.scale as int);
        }
        let an = self.neg && self.mantissa > 0;
        let bn = other.neg && other.mantissa > 0;
        if an && !bn {
            -1
        } else if !an && bn {
            1
        } else if !an && !bn {
            mag_cmp(self.mantissa, self.scale, other.mantissa, other.scale)
        } else {
            let c = mag_cmp(self.mantissa, self.scale, other.mantissa, other.scale);
            if c == 1 {
                -1
            } else if c == -1 {
                1
            } else {
                0
            }
        }
    }

    /// Strictly below, by value.
    pub fn lt(&self, other: &Dec) -> (r: bool)
        requires
            self.wf(),
            other.wf(),
        ensures
            r == (self.uval() < other.uval()),
    {
        self.compare(other) == -1
    }

    /// Below or equal, by value.
    pub fn le(&self, other: &Dec) -> (r: bool)
        requires
            self.wf(),
            other.wf(),
        ensures
            r == (self.uval() <= other.uval()),
    {
        self.compare(other) != 1
    }

    /// Equal, by value: `99.50` equals `99.5`.
    pub fn eq_val(&self, other: &Dec) -> (r: bool)
        requires
            self.wf(),
            other.wf(),
        ensures
            r == (self.uval() == other.uval()),
    {
        self.compare(other) == 0
    }

    /// Exact addition. `None` exactly when the sum has no exact decimal
    /// representation; a `Some` result is the sum's canonical
    /// representation.
    pub fn checked_add(&self, other: &Dec) -> (r: Option<Dec>)
        requires
            self.wf(),
            other.wf(),
        ensures
            r matches Option::Some(d) ==> d.wf() && d.uval() == self.uval() + other.uval()
                && is_normal(d),
            r is Some <==> representable(abs_val(self.uval() + other.uval())),
    {
        proof {
            lemma_mag_sign(self.mantissa as int, self.scale as int);
            lemma_mag_sign(other.mantissa as int, other.scale as int);
        }
        if self.mantissa == 0 {
            Some(normalized(other))
        } else if other.mantissa == 0 {
            Some(normalized(self))
        } else if self.neg == other.neg {
            match mag_add(self.mantissa, self.scale, other.mantissa, other.scale) {
                Some((m, s)) => {
                    let t = Dec { neg: self.neg, mantissa: m, scale: s };
                    Some(normalized(&t))
                },
                None => None,
            }
        } else {
            let c = mag_cmp(self.mantissa, self.scale, other.mantissa, other.scale);
            if c == 0 {
                proof {
                    lemma_mag_sign(0, 0);
                }
                Some(Dec { neg: false, mantissa: 0, scale: 0 })
            } else if c == 1 {
                match mag_sub(self.mantissa, self.scale, other.mantissa, other.scale) {
                    Some((m, s)) => {
                        let t = Dec { neg: self.neg, mantissa: m, scale: s };
                        Some(normalized(&t))
                    },
                    None => None,
                }
            } else {
                match mag_sub(other.mantissa, other.scale, self.mantissa, self.scale) {
                    Some((m, s)) => {
                        let t = Dec { neg: other.neg, mantissa: m, scale: s };
                        Some(normalized(&t))
                    },
                    None => None,
                }
            }
        }
    }

    /// Exact subtraction. `None` exactly when the difference has no exact
    /// decimal representation; a `Some` result is the difference's
    /// canonical representation.
    pub fn checked_sub(&self, other: &Dec) -> (r: Option<Dec>)
        requires
            self.wf(),
            other.wf(),
        ensures
            r matches Option::Some(d) ==> d.wf() && d.uval() == self.uval() - other.uval()
                && is_normal(d),
            r is Some <==> representable(abs_val(self.uval() - other.uval())),
    {
        let flipped = other.negated();
        self.checked_add(&flipped)
    }

    /// Exact arithmetic mean. When neither value is negative (as for
    /// prices in a book), `None` exactly when the mean has no exact
    /// decimal representation; with mixed signs a `Some` result is still
    /// exact.
    pub fn checked_mean(&self, other: &Dec) -> (r: Option<Dec>)
        requires
            self.wf(),
            other.wf(),
        ensures
            r matches Option::Some(d) ==> d.wf() && 2 * d.uval() == self.uval() + other.uval(),
            self.uval() >= 0 && other.uval() >= 0 ==> (r is Some <==> representable_half(
                self.uval() + other.uval(),
            )),
    {
        proof {
            lemma_mag_sign(self.mantissa as int, self.scale as int);
            lemma_mag_sign(other.mantissa as int, other.scale as int);
            if self.uval() >= 0 && other.uval() >= 0 && self.neg != other.neg {
                // one side carries a negative sign over a zero magnitude
                if self.neg {
                    assert(self.mantissa == 0);
                } else {
                    assert(other.mantissa == 0);
                }
            }
        }
        if self.neg == other.neg {
            match mag_mean(self.mantissa, self.scale, other.mantissa, other.scale) {
                Some((m, s)) => Some(Dec { neg: self.neg, mantissa: m, scale: s }),
                None => None,
            }
        } else {
            // mixed signs: halve the (signed) difference of magnitudes
            let c = mag_cmp(self.mantissa, self.scale, other.mantissa, other.scale);
            if c == 0 {
                proof {
                    lemma_mag_sign(0, 0);
                }
                Some(Dec { neg: false, mantissa: 0, scale: 0 })
            } else if c == 1 {
                match mag_sub(self.mantissa, self.scale, other.mantissa, other.scale) {
                    Some((m, s)) => match mag_half(m, s) {
                        Some((hm, hs)) => Some(Dec { neg: self.neg, mantissa: hm, scale: hs }),
                        None => None,
                    },
                    None => None,
                }
            } else {
                match mag_sub(other.mantissa, other.scale, self.mantissa, self.scale) {
                    Some((m, s)) => match mag_half(m, s) {
                        Some((hm, hs)) => Some(Dec { neg: other.neg, mantissa: hm, scale: hs }),
                        None => None,
                    },
                    None => None,
                }
            }
        }
    }
}

/// What `rust_decimal`'s string parser returns for a given sequence of
/// characters: `None` when the string is not a valid decimal, otherwise
/// the sign, mantissa and scale of the parsed value.
pub uninterp spec fn spec_parse_decimal(s: Seq<char>) -> Option<(bool, u128, u32)>;

/// The parse result lifted to a `Dec`.
pub open spec fn spec_parse_dec(s: Seq<char>) -> Option<Dec> {
    match spec_parse_decimal(s) {
        Option::None => Option::None,
        Option::Some(t) => Option::Some(dec_of_triple(t)),
    }
}

/// Relies on `rust_decimal::Decimal::from_str` to parse a decimal string,
/// and on `Decimal`'s documented value domain: a 96-bit unsigned mantissa
/// with a scale between 0 and 28.
#[verifier::external_body]
fn parse_decimal_str(s: &str) -> (r: Option<Dec>)
    ensures
        r is Some <==> spec_parse_decimal(s@) is Some,
        r matches Option::Some(d) ==> (spec_parse_decimal(s@) matches Option::Some(t) && d
            == dec_of_triple(t) && d.wf()),
{
    match <rust_decimal::Decimal as core::str::FromStr>::from_str(s) {
        Ok(d) => Some(
            Dec {
                neg: d.is_sign_negative(),
                mantissa: d.mantissa().unsigned_abs(),
                scale: d.scale(),
            },
        ),
        Err(_) => None,
    }
}

/// What `rust_decimal`'s `Display` implementation prints for a decimal
/// with the given sign, mantissa and scale.
pub uninterp spec fn spec_format_decimal(neg: bool, mantissa: u128, scale: u32) -> Seq<char>;

/// Relies on `rust_decimal::Decimal`'s `Display`: the digits of the
/// mantissa with a decimal point placed `scale` digits from the right.
#[verifier::external_body]
fn format_decimal(d: &Dec) -> (r: String)
    requires
        d.wf(),
    ensures
        r@ == spec_format_decimal(d.neg, d.mantissa, d.scale),
{
    let m = d.mantissa as i128;
    let m = if d.neg { -m } else { m };
    match rust_decimal::Decimal::try_from_i128_with_scale(m, d.scale) {
        Ok(v) => v.to_string(),
        Err(_) => String::new(),
    }
}

/// What `rust_decimal`'s `checked_div` returns for the two values with
/// the given signs, mantissas and scales: the quotient rounded to the
/// decimal's 28-digit precision, or `None` on division by zero or
/// overflow.
pub uninterp spec fn spec_div_decimal(
    an: bool,
    am: u128,
    ascale: u32,
    bn: bool,
    bm: u128,
    bscale: u32,
) -> Option<(bool, u128, u32)>;

/// Relies on `rust_decimal::Decimal::checked_div`, and on `Decimal`'s
/// documented value domain for the bounds of the result.
#[verifier::external_body]
fn div_decimal(a: &Dec, b: &Dec) -> (r: Option<Dec>)
    requires
        a.wf(),
        b.wf(),
    ensures
        r is Some <==> spec_div_decimal(a.neg, a.mantissa, a.scale, b.neg, b.mantissa, b.scale)
            is Some,
        r matches Option::Some(d) ==> (spec_div_decimal(
            a.neg,
            a.mantissa,
            a.scale,
            b.neg,
            b.mantissa,
            b.scale,
        ) matches Option::Some(t) && d == dec_of_triple(t) && d.wf()),
{
    let am = if a.neg { -(a.mantissa as i128) } else { a.mantissa as i128 };
    let bm = if b.neg { -(b.mantissa as i128) } else { b.mantissa as i128 };
    let av = rust_decimal::Decimal::try_from_i128_with_scale(am, a.scale);
    let bv = rust_decimal::Decimal::try_from_i128_with_scale(bm, b.scale);
    match (av, bv) {
        (Ok(x), Ok(y)) => x.checked_div(y).map(
            |q| Dec { neg: q.is_sign_negative(), mantissa: q.mantissa().unsigned_abs(), scale: q.scale() },
        ),
        _ => None,
    }
}

/// What `rust_decimal`'s `checked_mul` returns for the two values with
/// the given signs, mantissas and scales: the product, rounded if it
/// carries more than 28 fractional digits, or `None` on overflow.
pub uninterp spec fn spec_mul_decimal(
    an: bool,
    am: u128,
    ascale: u32,
    bn: bool,
    bm: u128,
    bscale: u32,
) -> Option<(bool, u128, u32)>;

/// Relies on `rust_decimal::Decimal::checked_mul`, and on `Decimal`'s
/// documented value domain for the bounds of the result.
#[verifier::external_body]
fn mul_decimal(a: &Dec, b: &Dec) -> (r: Option<Dec>)
    requires
        a.wf(),
        b.wf(),
    ensures
        r is Some <==> spec_mul_decimal(a.neg, a.mantissa, a.scale, b.neg, b.mantissa, b.scale)
            is Some,
        r matches Option::Some(d) ==> (spec_mul_decimal(
            a.neg,
            a.mantissa,
            a.scale,
            b.neg,
            b.mantissa,
            b.scale,
        ) matches Option::Some(t) && d == dec_of_triple(t) && d.wf()),
{
    let am = if a.neg { -(a.mantissa as i128) } else { a.mantissa as i128 };
    let bm = if b.neg { -(b.mantissa as i128) } else { b.mantissa as i128 };
    let av = rust_decimal::Decimal::try_from_i128_with_scale(am, a.scale);
    let bv = rust_decimal::Decimal::try_from_i128_with_scale(bm, b.scale);
    match (av, bv) {
        (Ok(x), Ok(y)) => x.checked_mul(y).map(
            |q| Dec { neg: q.is_sign_negative(), mantissa: q.mantissa().unsigned_abs(), scale: q.scale() },
        ),
        _ => None,
    }
}

impl Dec {
    /// Parse a decimal string; `None` when the string is not a valid
    /// decimal.
    pub fn parse(s: &str) -> (r: Option<Dec>)
        ensures
            r == spec_parse_dec(s@),
            r matches Option::Some(d) ==> d.wf(),
    {
        parse_decimal_str(s)
    }

    /// Render the decimal as a string, keeping its scale: a value parsed
    /// from `"100.0"` prints as `"100.0"`.
    pub fn to_display_string(&self) -> (r: String)
        requires
            self.wf(),
        ensures
            r@ == spec_format_decimal(self.neg, self.mantissa, self.scale),
    {
        format_decimal(self)
    }

    /// Divide by `other` through `rust_decimal`; the quotient is rounded
    /// to the decimal's 28-digit precision. `None` on division by zero or
    /// overflow.
    pub fn checked_div(&self, other: &Dec) -> (r: Option<Dec>)
        requires
            self.wf(),
            other.wf(),
        ensures
            r is Some <==> spec_div_decimal(
                self.neg,
                self.mantissa,
                self.scale,
                other.neg,
                other.mantissa,
                other.scale,
            ) is Some,
            r matches Option::Some(d) ==> (spec_div_decimal(
                self.neg,
                self.mantissa,
                self.scale,
                other.neg,
                other.mantissa,
                other.scale,
            ) matches Option::Some(t) && d == dec_of_triple(t) && d.wf()),
    {
        div_decimal(self, other)
    }

    /// Multiply by `other` through `rust_decimal`; the product is rounded
    /// if it carries more than 28 fractional digits. `None` on overflow.
    pub fn checked_mul(&self, other: &Dec) -> (r: Option<Dec>)
        requires
            self.wf(),
            other.wf(),
        ensures
            r is Some <==> spec_mul_decimal(
                self.neg,
                self.mantissa,
                self.scale,
                other.neg,
                other.mantissa,
                other.scale,
            ) is Some,
            r matches Option::Some(d) ==> (spec_mul_decimal(
                self.neg,
                self.mantissa,
                self.scale,
                other.neg,
                other.mantissa,
                other.scale,
            ) matches Option::Some(t) && d == dec_of_triple(t) && d.wf()),
    {
        mul_decimal(self, other)
    }
}

} // verus!
