use vstd::prelude::*;

use crate::text::{decimal, digit_char, digit_to_char, push_char, push_decimal, push_str};

verus! {

/// Greatest common divisor by Euclid's algorithm.
pub open spec fn gcd(a: nat, b: nat) -> nat
    decreases b,
{
    if b == 0 {
        a
    } else {
        gcd(b, a % b)
    }
}

pub proof fn lemma_gcd_pos(a: nat, b: nat)
    requires
        a > 0 || b > 0,
    ensures
        gcd(a, b) > 0,
    decreases b,
{
    if b > 0 {
        lemma_gcd_pos(b, a % b);
    }
}

pub proof fn lemma_gcd_le(a: nat, b: nat)
    requires
        b > 0,
    ensures
        gcd(a, b) <= b,
    decreases b,
{
    if a % b > 0 {
        lemma_gcd_le(b, a % b);
    } else {
        assert(gcd(b, 0) == b);
    }
}

fn gcd_u128(a: u128, b: u128) -> (r: u128)
    ensures
        r == gcd(a as nat, b as nat),
{
    let mut x: u128 = a;
    let mut y: u128 = b;
    while y != 0
        invariant
            gcd(x as nat, y as nat) == gcd(a as nat, b as nat),
        decreases y,
    {
        let t: u128 = x % y;
        x = y;
        y = t;
    }
    x
}

pub open spec fn abs(n: int) -> nat {
    if n < 0 {
        (-n) as nat
    } else {
        n as nat
    }
}

/// A number of the language: an exact fraction, or one of the three
/// non-finite values that division by zero can produce.
#[derive(Clone, Copy, Debug, PartialEq, Eq)]
enum Repr {
    Ratio(i64, i64),
    PosInf,
    NegInf,
    NaN,
}

/// A numeric value. A finite number is a fraction held in lowest terms with a
/// positive denominator; numerator and denominator fit in 64 bits. Dividing a
/// non-zero number by zero gives an infinity, and `0 / 0` gives NaN, which
/// equals nothing and compares false with everything.
#[derive(Clone, Copy, Debug, PartialEq, Eq)]
pub struct Num {
    repr: Repr,
}

/// Lowest terms of `n / d` (for `d > 0`), if both parts fit.
pub closed spec fn ratio(n: int, d: int) -> Option<Num> {
    let g = gcd(abs(n), d as nat);
    let q = abs(n) / g;
    let e = (d as nat) / g;
    if q <= i64::MAX && e <= i64::MAX {
        Some(Num { repr: Repr::Ratio((if n < 0 { -q } else { q as int }) as i64, e as i64) })
    } else {
        None
    }
}

impl Num {
    #[verifier::type_invariant]
    spec fn inv(self) -> bool {
        match self.repr {
            Repr::Ratio(n, d) => d > 0 && n > i64::MIN,
            _ => true,
        }
    }

    /// The number is finite and its value is `n / d`.
    pub closed spec fn is_ratio(self, n: int, d: int) -> bool {
        match self.repr {
            Repr::Ratio(a, b) => a * d == n * b,
            _ => false,
        }
    }

    pub closed spec fn is_nan(self) -> bool {
        self.repr is NaN
    }

    pub closed spec fn is_pos_inf(self) -> bool {
        self.repr is PosInf
    }

    pub closed spec fn is_neg_inf(self) -> bool {
        self.repr is NegInf
    }

    pub closed spec fn spec_neg(self) -> Num {
        match self.repr {
            Repr::Ratio(n, d) => Num { repr: Repr::Ratio((-n) as i64, d) },
            Repr::PosInf => Num { repr: Repr::NegInf },
            Repr::NegInf => Num { repr: Repr::PosInf },
            Repr::NaN => self,
        }
    }

    /// The sum, or `None` where a finite result does not fit.
    pub closed spec fn spec_add(self, o: Num) -> Option<Num> {
        match (self.repr, o.repr) {
            (Repr::NaN, _) | (_, Repr::NaN) => Some(Num { repr: Repr::NaN }),
            (Repr::PosInf, Repr::NegInf) | (Repr::NegInf, Repr::PosInf) => Some(
                Num { repr: Repr::NaN },
            ),
            (Repr::PosInf, _) | (_, Repr::PosInf) => Some(Num { repr: Repr::PosInf }),
            (Repr::NegInf, _) | (_, Repr::NegInf) => Some(Num { repr: Repr::NegInf }),
            (Repr::Ratio(a, b), Repr::Ratio(c, d)) => ratio(a * d + c * b, b * d),
        }
    }

    pub closed spec fn spec_sub(self, o: Num) -> Option<Num> {
        self.spec_add(o.spec_neg())
    }

    /// Sign of a value for the product rules: `1`, `-1`, or `0` for zero.
    closed spec fn sign(self) -> int {
        match self.repr {
            Repr::Ratio(n, _) => if n > 0 {
                1
            } else if n < 0 {
                -1
            } else {
                0
            },
            Repr::PosInf => 1,
            Repr::NegInf => -1,
            Repr::NaN => 0,
        }
    }

    closed spec fn inf_of_sign(s: int) -> Num {
        if s < 0 {
            Num { repr: Repr::NegInf }
        } else {
            Num { repr: Repr::PosInf }
        }
    }

    pub closed spec fn spec_mul(self, o: Num) -> Option<Num> {
        match (self.repr, o.repr) {
            (Repr::NaN, _) | (_, Repr::NaN) => Some(Num { repr: Repr::NaN }),
            (Repr::Ratio(a, b), Repr::Ratio(c, d)) => ratio(a * c, b * d),
            _ => if self.sign() == 0 || o.sign() == 0 {
                Some(Num { repr: Repr::NaN })
            } else {
                Some(Num::inf_of_sign(self.sign() * o.sign()))
            },
        }
    }

    pub closed spec fn spec_div(self, o: Num) -> Option<Num> {
        match (self.repr, o.repr) {
            (Repr::NaN, _) | (_, Repr::NaN) => Some(Num { repr: Repr::NaN }),
            (Repr::Ratio(a, b), Repr::Ratio(c, d)) => if c == 0 {
                if a == 0 {
                    Some(Num { repr: Repr::NaN })
                } else {
                    Some(Num::inf_of_sign(a as int))
                }
            } else if c > 0 {
                ratio(a * d, b * c)
            } else {
                ratio(-(a * d), -(b * c))
            },
            (Repr::Ratio(_, _), _) => Some(Num { repr: Repr::Ratio(0, 1) }),
            (_, Repr::Ratio(c, _)) => Some(
                Num::inf_of_sign(if c < 0 { -self.sign() } else { self.sign() }),
            ),
            _ => Some(Num { repr: Repr::NaN }),
        }
    }

    /// `self < o`; false whenever either side is NaN.
    pub closed spec fn spec_lt(self, o: Num) -> bool {
        match (self.repr, o.repr) {
            (Repr::NaN, _) | (_, Repr::NaN) => false,
            (Repr::Ratio(a, b), Repr::Ratio(c, d)) => a * d < c * b,
            (Repr::NegInf, Repr::NegInf) => false,
            (Repr::NegInf, _) => true,
            (Repr::PosInf, Repr::PosInf) => false,
            (_, Repr::PosInf) => true,
            _ => false,
        }
    }

    /// Numeric equality; NaN equals nothing, itself included.
    pub closed spec fn spec_eq(self, o: Num) -> bool {
        match (self.repr, o.repr) {
            (Repr::Ratio(a, b), Repr::Ratio(c, d)) => a * d == c * b,
            (Repr::PosInf, Repr::PosInf) => true,
            (Repr::NegInf, Repr::NegInf) => true,
            _ => false,
        }
    }

    pub closed spec fn spec_le(self, o: Num) -> bool {
        self.spec_lt(o) || self.spec_eq(o)
    }

    /// The display text: the integer part, then up to sixteen fractional
    /// digits (cut, not rounded); `inf`, `-inf` and `NaN` for the others.
    pub closed spec fn text(self) -> Seq<char> {
        match self.repr {
            Repr::Ratio(n, d) => {
                let m = abs(n as int);
                let sign = if n < 0 { seq!['-'] } else { Seq::empty() };
                let int_part = decimal(m / (d as nat));
                let r = m % (d as nat);
                if r == 0 {
                    sign + int_part
                } else {
                    sign + int_part + seq!['.'] + fraction_digits(r, d as nat, 16)
                }
            },
            Repr::PosInf => "inf"@,
            Repr::NegInf => "-inf"@,
            Repr::NaN => "NaN"@,
        }
    }
}

/// The first `k` digits of the decimal expansion of `r / d` (for `r < d`),
/// stopping early where the expansion ends.
pub open spec fn fraction_digits(r: nat, d: nat, k: nat) -> Seq<char>
    decreases k,
{
    if k == 0 || r == 0 || d == 0 {
        Seq::empty()
    } else {
        seq![digit_char((r * 10) / d)] + fraction_digits((r * 10) % d, d, (k - 1) as nat)
    }
}

/// Reduces `n / d` to lowest terms, if the result fits.
fn make_ratio(n: i128, d: i128) -> (r: Option<Num>)
    requires
        d > 0,
        n > i128::MIN,
    ensures
        r == ratio(n as int, d as int),
{
    let neg = n < 0;
    let a: u128 = if neg { (-n) as u128 } else { n as u128 };
    let g = gcd_u128(a, d as u128);
    proof {
        lemma_gcd_pos(a as nat, d as nat);
        lemma_gcd_le(a as nat, d as nat);
        assert(abs(n as int) == a as nat);
        assert(d as nat / g as nat >= 1) by (nonlinear_arith)
            requires
                g as nat <= d as nat,
                g > 0,
        ;
    }
    let q = a / g;
    let e = (d as u128) / g;
    if q <= i64::MAX as u128 && e <= i64::MAX as u128 {
        let qi = q as i64;
        let num = if neg { -qi } else { qi };
        Some(Num { repr: Repr::Ratio(num, e as i64) })
    } else {
        None
    }
}

impl Num {
    /// The whole number `n`.
    pub fn from_i32(n: i32) -> (r: Num)
        ensures
            r.is_ratio(n as int, 1),
    {
        Num { repr: Repr::Ratio(n as i64, 1) }
    }

    /// The fraction `num / den`; `None` where `den` is zero or the reduced
    /// fraction does not fit in 64 bits.
    pub fn from_ratio(num: i64, den: i64) -> (r: Option<Num>)
        ensures
            den == 0 ==> r is None,
            den > 0 ==> r == ratio(num as int, den as int),
            den < 0 ==> r == ratio(-num, -den),
    {
        if den == 0 {
            None
        } else if den > 0 {
            make_ratio(num as i128, den as i128)
        } else {
            make_ratio(-(num as i128), -(den as i128))
        }
    }

    /// Positive infinity.
    pub fn infinity() -> (r: Num)
        ensures
            r.is_pos_inf(),
    {
        Num { repr: Repr::PosInf }
    }

    /// Negative infinity.
    pub fn neg_infinity() -> (r: Num)
        ensures
            r.is_neg_inf(),
    {
        Num { repr: Repr::NegInf }
    }

    /// Not a number.
    pub fn nan() -> (r: Num)
        ensures
            r.is_nan(),
    {
        Num { repr: Repr::NaN }
    }

    pub fn neg(self) -> (r: Num)
        ensures
            r == self.spec_neg(),
    {
        proof {
            use_type_invariant(&self);
        }
        match self.repr {
            Repr::Ratio(n, d) => Num { repr: Repr::Ratio(-n, d) },
            Repr::PosInf => Num { repr: Repr::NegInf },
            Repr::NegInf => Num { repr: Repr::PosInf },
            Repr::NaN => self,
        }
    }

    pub fn add(self, o: Num) -> (r: Option<Num>)
        ensures
            r == self.spec_add(o),
    {
        proof {
            use_type_invariant(&self);
            use_type_invariant(&o);
        }
        match (self.repr, o.repr) {
            (Repr::NaN, _) | (_, Repr::NaN) => Some(Num { repr: Repr::NaN }),
            (Repr::PosInf, Repr::NegInf) | (Repr::NegInf, Repr::PosInf) => Some(
                Num { repr: Repr::NaN },
            ),
            (Repr::PosInf, _) | (_, Repr::PosInf) => Some(Num { repr: Repr::PosInf }),
            (Repr::NegInf, _) | (_, Repr::NegInf) => Some(Num { repr: Repr::NegInf }),
            (Repr::Ratio(a, b), Repr::Ratio(c, d)) => {
                proof {
                    lemma_product(a as int, d as int);
                    lemma_product(c as int, b as int);
                    lemma_product(b as int, d as int);
                }
                make_ratio(
                    (a as i128) * (d as i128) + (c as i128) * (b as i128),
                    (b as i128) * (d as i128),
                )
            },
        }
    }

    pub fn sub(self, o: Num) -> (r: Option<Num>)
        ensures
            r == self.spec_sub(o),
    {
        self.add(o.neg())
    }

    fn sign_of(self) -> (r: i8)
        ensures
            r as int == self.sign(),
    {
        match self.repr {
            Repr::Ratio(n, _) => if n > 0 {
                1
            } else if n < 0 {
                -1
            } else {
                0
            },
            Repr::PosInf => 1,
            Repr::NegInf => -1,
            Repr::NaN => 0,
        }
    }

    fn inf_with_sign(s: i8) -> (r: Num)
        ensures
            r == Num::inf_of_sign(s as int),
    {
        if s < 0 {
            Num { repr: Repr::NegInf }
        } else {
            Num { repr: Repr::PosInf }
        }
    }

    pub fn mul(self, o: Num) -> (r: Option<Num>)
        ensures
            r == self.spec_mul(o),
    {
        proof {
            use_type_invariant(&self);
            use_type_invariant(&o);
        }
        match (self.repr, o.repr) {
            (Repr::NaN, _) | (_, Repr::NaN) => Some(Num { repr: Repr::NaN }),
            (Repr::Ratio(a, b), Repr::Ratio(c, d)) => {
                proof {
                    lemma_product(a as int, c as int);
                    lemma_product(b as int, d as int);
                }
                make_ratio((a as i128) * (c as i128), (b as i128) * (d as i128))
            },
            _ => {
                let s = self.sign_of();
                let t = o.sign_of();
                if s == 0 || t == 0 {
                    Some(Num { repr: Repr::NaN })
                } else {
                    Some(Num::inf_with_sign(s * t))
                }
            },
        }
    }

    pub fn div(self, o: Num) -> (r: Option<Num>)
        ensures
            r == self.spec_div(o),
    {
        proof {
            use_type_invariant(&self);
            use_type_invariant(&o);
        }
        match (self.repr, o.repr) {
            (Repr::NaN, _) | (_, Repr::NaN) => Some(Num { repr: Repr::NaN }),
            (Repr::Ratio(a, b), Repr::Ratio(c, d)) => {
                proof {
                    lemma_product(a as int, d as int);
                    lemma_product(b as int, c as int);
                }
                if c == 0 {
                    if a == 0 {
                        Some(Num { repr: Repr::NaN })
                    } else {
                        Some(Num::inf_with_sign(if a < 0 { -1 } else { 1 }))
                    }
                } else if c > 0 {
                    make_ratio((a as i128) * (d as i128), (b as i128) * (c as i128))
                } else {
                    make_ratio(-((a as i128) * (d as i128)), -((b as i128) * (c as i128)))
                }
            },
            (Repr::Ratio(_, _), _) => Some(Num { repr: Repr::Ratio(0, 1) }),
            (_, Repr::Ratio(c, _)) => {
                let s = self.sign_of();
                Some(Num::inf_with_sign(if c < 0 { -s } else { s }))
            },
            _ => Some(Num { repr: Repr::NaN }),
        }
    }

    pub fn lt(self, o: Num) -> (r: bool)
        ensures
            r == self.spec_lt(o),
    {
        proof {
            use_type_invariant(&self);
            use_type_invariant(&o);
        }
        match (self.repr, o.repr) {
            (Repr::NaN, _) | (_, Repr::NaN) => false,
            (Repr::Ratio(a, b), Repr::Ratio(c, d)) => {
                proof {
                    lemma_product(a as int, d as int);
                    lemma_product(c as int, b as int);
                }
                (a as i128) * (d as i128) < (c as i128) * (b as i128)
            },
            (Repr::NegInf, Repr::NegInf) => false,
            (Repr::NegInf, _) => true,
            (Repr::PosInf, Repr::PosInf) => false,
            (_, Repr::PosInf) => true,
            _ => false,
        }
    }

    pub fn num_eq(self, o: Num) -> (r: bool)
        ensures
            r == self.spec_eq(o),
    {
        proof {
            use_type_invariant(&self);
            use_type_invariant(&o);
        }
        match (self.repr, o.repr) {
            (Repr::Ratio(a, b), Repr::Ratio(c, d)) => {
                proof {
                    lemma_product(a as int, d as int);
                    lemma_product(c as int, b as int);
                }
                (a as i128) * (d as i128) == (c as i128) * (b as i128)
            },
            (Repr::PosInf, Repr::PosInf) => true,
            (Repr::NegInf, Repr::NegInf) => true,
            _ => false,
        }
    }

    pub fn le(self, o: Num) -> (r: bool)
        ensures
            r == self.spec_le(o),
    {
        self.lt(o) || self.num_eq(o)
    }

    /// Appends the display text.
    pub fn push_text(&self, s: &mut String)
        ensures
            final(s)@ == old(s)@ + self.text(),
    {
        proof {
            use_type_invariant(self);
        }
        match self.repr {
            Repr::Ratio(n, d) => {
                let m: u64 = if n < 0 { (-n) as u64 } else { n as u64 };
                let du = d as u64;
                if n < 0 {
                    push_char(s, '-');
                }
                let ghost before = s@;
                push_decimal(s, m / du);
                let r = m % du;
                if r != 0 {
                    push_char(s, '.');
                    push_fraction(s, r, du);
                }
                proof {
                    assert(abs(n as int) == m as nat);
                    if n < 0 {
                        assert(old(s)@ + seq!['-'] == before);
                    } else {
                        assert(old(s)@ == before);
                    }
                }
                assert(final(s)@ =~= old(s)@ + self.text());
            },
            Repr::PosInf => {
                proof {
                    reveal_strlit("inf");
                }
                push_str(s, "inf");
            },
            Repr::NegInf => {
                proof {
                    reveal_strlit("-inf");
                }
                push_str(s, "-inf");
            },
            Repr::NaN => {
                proof {
                    reveal_strlit("NaN");
                }
                push_str(s, "NaN");
            },
        }
    }

    /// The display text as a new string.
    pub fn to_text(&self) -> (r: String)
        ensures
            r@ == self.text(),
    {
        let mut s = String::new();
        self.push_text(&mut s);
        assert(s@ =~= self.text());
        s
    }
}

/// Bounds of a product of two 64-bit values, neither of them `i64::MIN`.
proof fn lemma_product(x: int, y: int)
    requires
        -i64::MAX <= x <= i64::MAX,
        -i64::MAX <= y <= i64::MAX,
    ensures
        -(i64::MAX * i64::MAX) <= x * y <= i64::MAX * i64::MAX,
        x > 0 && y > 0 ==> x * y > 0,
        x > 0 && y < 0 ==> x * y < 0,
        x < 0 && y > 0 ==> x * y < 0,
{
    assert(-(i64::MAX * i64::MAX) <= x * y <= i64::MAX * i64::MAX) by (nonlinear_arith)
        requires
            -i64::MAX <= x <= i64::MAX,
            -i64::MAX <= y <= i64::MAX,
    ;
    assert(x > 0 && y > 0 ==> x * y > 0) by (nonlinear_arith);
    assert(x > 0 && y < 0 ==> x * y < 0) by (nonlinear_arith);
    assert(x < 0 && y > 0 ==> x * y < 0) by (nonlinear_arith);
}

/// Appends up to sixteen digits of the decimal expansion of `r / d`.
fn push_fraction(s: &mut String, r: u64, d: u64)
    requires
        0 < r < d,
    ensures
        final(s)@ == old(s)@ + fraction_digits(r as nat, d as nat, 16),
{
    let mut rem: u128 = r as u128;
    let mut k: u64 = 16;
    while k > 0 && rem != 0
        invariant
            rem < d as u128,
            old(s)@ + fraction_digits(r as nat, d as nat, 16) == s@ + fraction_digits(
                rem as nat,
                d as nat,
                k as nat,
            ),
        decreases k,
    {
        let q = (rem * 10) / (d as u128);
        proof {
            assert(q < 10) by (nonlinear_arith)
                requires
                    rem < d,
                    q as int == (rem as int * 10) / (d as int),
            ;
        }
        push_char(s, digit_to_char(q as u64));
        rem = (rem * 10) % (d as u128);
        k = k - 1;
        assert(s@ + fraction_digits(rem as nat, d as nat, k as nat) =~= old(s)@ + fraction_digits(r as nat, d as nat, 16));
    }
    assert(s@ =~= old(s)@ + fraction_digits(r as nat, d as nat, 16));
}

} // verus!
