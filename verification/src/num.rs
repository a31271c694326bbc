//! Numbers as IEEE 754 binary64 bit patterns.
//!
//! Nothing here computes with them: a pattern is carried, compared and taken
//! apart exactly. Arithmetic on quantities is written down as an expression
//! (see [`crate::expr`]) and evaluated by whoever paints.

use vstd::prelude::*;

verus! {

/// A number, held as its binary64 bit pattern.
#[derive(Clone, Copy, Debug, PartialEq, Eq, Structural)]
pub struct Num {
    /// The pattern, sign bit first.
    pub bits: u64,
}

/// The largest id that a pick buffer can hold.
pub const MAX_PICK_ID: u32 = 0xFF_FFFF;

/// Two to the power `e`.
pub open spec fn two_to(e: int) -> real
    decreases (if e < 0 { -e } else { e }),
{
    if e == 0 {
        1real
    } else if e > 0 {
        2real * two_to(e - 1)
    } else {
        two_to(e + 1) / 2real
    }
}

/// One half.
pub open spec fn half() -> real {
    1real / 2real
}

/// Two to the power `n`, as a natural number.
pub open spec fn power_of_two(n: nat) -> nat
    decreases n,
{
    if n == 0 {
        1
    } else {
        2 * power_of_two((n - 1) as nat)
    }
}

/// Every power of two is positive.
pub proof fn two_to_positive(e: int)
    ensures
        two_to(e) > 0real,
    decreases (if e < 0 { -e } else { e }),
{
    if e > 0 {
        two_to_positive(e - 1);
    } else if e < 0 {
        two_to_positive(e + 1);
    }
}

/// Raising the exponent by one doubles the power.
pub proof fn two_to_step(e: int)
    ensures
        two_to(e + 1) == 2real * two_to(e),
{
    if e < 0 {
        assert(two_to(e) == two_to(e + 1) / 2real);
    }
}

/// A power and its reciprocal.
pub proof fn two_to_reciprocal(n: nat)
    ensures
        two_to(-(n as int)) * (power_of_two(n) as real) == 1real,
        power_of_two(n) >= 1,
    decreases n,
{
    if n > 0 {
        two_to_reciprocal((n - 1) as nat);
        let a = two_to(-(n as int));
        let p = power_of_two((n - 1) as nat) as real;
        two_to_step(-(n as int));
        assert(two_to(-((n - 1) as nat as int)) == 2real * a);
        assert(power_of_two(n) as real == 2real * p);
        assert(a * (2real * p) == (2real * a) * p) by (nonlinear_arith);
    }
}

/// Larger exponents give larger powers.
pub proof fn two_to_monotone(a: int, b: int)
    requires
        a <= b,
    ensures
        two_to(a) <= two_to(b),
    decreases b - a,
{
    if a < b {
        two_to_monotone(a, b - 1);
        two_to_step(b - 1);
        two_to_positive(b - 1);
    }
}

impl Num {
    /// Whether the sign bit is set.
    pub open spec fn negative(self) -> bool {
        self.bits >= 0x8000_0000_0000_0000
    }

    /// The biased exponent field.
    pub open spec fn exponent_field(self) -> int {
        (self.bits as int / 0x10_0000_0000_0000) % 2048
    }

    /// The fraction field.
    pub open spec fn fraction(self) -> int {
        self.bits as int % 0x10_0000_0000_0000
    }

    /// Whether the pattern is a number, neither infinite nor undefined.
    pub open spec fn finite(self) -> bool {
        self.exponent_field() != 2047
    }

    /// Whether the pattern is undefined as a number.
    pub open spec fn undefined(self) -> bool {
        self.exponent_field() == 2047 && self.fraction() != 0
    }

    /// The integer that the exponent scales.
    pub open spec fn significand(self) -> int {
        if self.exponent_field() == 0 {
            self.fraction()
        } else {
            0x10_0000_0000_0000 + self.fraction()
        }
    }

    /// The power of two that scales the significand.
    pub open spec fn exponent(self) -> int {
        if self.exponent_field() == 0 {
            -1074
        } else {
            self.exponent_field() - 1075
        }
    }

    /// The number without its sign.
    pub open spec fn magnitude(self) -> real {
        (self.significand() as real) * two_to(self.exponent())
    }

    /// The number that a finite pattern stands for.
    pub open spec fn value(self) -> real {
        if self.negative() {
            0real - self.magnitude()
        } else {
            self.magnitude()
        }
    }

    /// Whether the pattern stands for a number above zero; infinity counts.
    pub open spec fn above_zero(self) -> bool {
        !self.negative() && !self.undefined() && self.bits != 0
    }

    /// A number from its bit pattern.
    pub fn from_bits(bits: u64) -> (r: Num)
        ensures
            r == (Num { bits }),
    {
        Num { bits }
    }

    /// Zero.
    pub fn zero() -> (r: Num)
        ensures
            r.bits == 0,
            r.finite(),
            r.value() == 0real,
    {
        assert(0real * two_to(-1074) == 0real) by (nonlinear_arith);
        Num { bits: 0 }
    }

    fn exponent_of(self) -> (r: u64)
        ensures
            r == self.exponent_field(),
            r < 2048,
    {
        (self.bits / 0x10_0000_0000_0000) % 2048
    }

    fn fraction_of(self) -> (r: u64)
        ensures
            r == self.fraction(),
            r < 0x10_0000_0000_0000,
    {
        self.bits % 0x10_0000_0000_0000
    }

    /// Whether the pattern is a number, neither infinite nor undefined.
    pub fn is_finite(self) -> (r: bool)
        ensures
            r == self.finite(),
    {
        self.exponent_of() != 2047
    }

    /// Whether the number is above zero; infinity is, an undefined pattern is
    /// not.
    pub fn is_above_zero(self) -> (r: bool)
        ensures
            r == self.above_zero(),
            self.finite() ==> r == (self.value() > 0real),
    {
        let undefined = self.exponent_of() == 2047 && self.fraction_of() != 0;
        proof {
            self.sign_of_value();
        }
        self.bits < 0x8000_0000_0000_0000 && !undefined && self.bits != 0
    }

    /// The sign of the value follows the fields.
    pub proof fn sign_of_value(self)
        ensures
            self.significand() >= 0,
            self.significand() > 0 <==> self.bits != 0 && self.bits != 0x8000_0000_0000_0000,
            self.magnitude() >= 0real,
            self.magnitude() > 0real <==> self.significand() > 0,
    {
        let s = self.significand();
        let p = two_to(self.exponent());
        two_to_positive(self.exponent());
        assert(s as real * p >= 0real) by (nonlinear_arith)
            requires
                s >= 0,
                p > 0real,
        ;
        if s > 0 {
            assert(s as real * p > 0real) by (nonlinear_arith)
                requires
                    s > 0,
                    p > 0real,
            ;
        } else {
            assert(0real * p == 0real) by (nonlinear_arith);
        }
    }

    /// Whether the pattern is plus or minus zero.
    pub open spec fn is_nought(self) -> bool {
        self.bits == 0 || self.bits == 0x8000_0000_0000_0000
    }

    /// Whether the pattern is plus or minus zero.
    pub fn is_zero(self) -> (r: bool)
        ensures
            r == (self.bits == 0 || self.bits == 0x8000_0000_0000_0000),
            self.finite() ==> r == (self.value() == 0real),
    {
        proof {
            self.sign_of_value();
        }
        self.bits == 0 || self.bits == 0x8000_0000_0000_0000
    }

    /// The number as a pick id: an integer between nought and
    /// [`MAX_PICK_ID`].
    pub fn as_pick_index(self) -> (r: Option<u32>)
        ensures
            match r {
                Some(k) => self.is_pick_index(k as nat),
                None => forall|k: nat| !#[trigger] self.is_pick_index(k),
            },
    {
        proof {
            self.sign_of_value();
        }
        let e: u64 = self.exponent_of();
        if e == 2047 {
            return None;
        }
        if self.bits == 0 || self.bits == 0x8000_0000_0000_0000 {
            return Some(0);
        }
        if self.bits >= 0x8000_0000_0000_0000 || e < 1023 || e > 1046 {
            proof {
                self.not_a_pick_index();
            }
            return None;
        }
        let shift: u64 = 1075 - e;
        let unit: u64 = power(shift);
        let sig: u64 = 0x10_0000_0000_0000 + self.fraction_of();
        proof {
            power_bounds(shift as nat);
        }
        let whole: u64 = sig / unit;
        let rest: u64 = sig % unit;
        proof {
            let ghost u = unit as int;
            assert(sig as int == u * (sig as int / u) + sig as int % u) by (nonlinear_arith)
                requires
                    u > 0,
            ;
            assert(whole <= 0xFF_FFFF) by (nonlinear_arith)
                requires
                    whole == sig as int / u,
                    sig < 0x20_0000_0000_0000,
                    u >= 0x2000_0000,
            ;
        }
        if rest == 0 {
            proof {
                self.whole_units(shift as nat, whole as int);
            }
            Some(whole as u32)
        } else {
            proof {
                assert forall|k: nat| !#[trigger] self.is_pick_index(k) by {
                    if self.is_pick_index(k) {
                        self.whole_units(shift as nat, k as int);
                        let ghost u = unit as int;
                        assert(k as int == whole as int) by (nonlinear_arith)
                            requires
                                u * (k as int) <= sig as int,
                                sig as int == u * (k as int),
                                sig as int == u * (whole as int) + rest as int,
                                0 < rest as int,
                                rest as int <= u - 1,
                        ;
                        assert(false);
                    }
                }
            }
            None
        }
    }

    /// Whether the number is the pick id `k`.
    pub open spec fn is_pick_index(self, k: nat) -> bool {
        self.finite() && k <= MAX_PICK_ID && self.value() == k as real
    }

    proof fn not_a_pick_index(self)
        requires
            self.finite(),
            self.significand() > 0,
            self.negative() || self.exponent_field() < 1023 || self.exponent_field() > 1046,
        ensures
            forall|k: nat| !#[trigger] self.is_pick_index(k),
    {
        self.sign_of_value();
        let s = self.significand();
        let e = self.exponent();
        assert forall|k: nat| !#[trigger] self.is_pick_index(k) by {
            if self.is_pick_index(k) {
                assert(!self.negative());
                if self.exponent_field() < 1023 {
                    two_to_monotone(e, -53);
                    two_to_reciprocal(53);
                    power_bounds(53);
                    let p = two_to(-53);
                    let q = two_to(e);
                    two_to_positive(e);
                    assert(s as real * q < 1real) by (nonlinear_arith)
                        requires
                            0 < s < 0x20_0000_0000_0000,
                            0real < q <= p,
                            p * 0x20_0000_0000_0000real == 1real,
                    ;
                    assert(k == 0);
                    assert(self.value() > 0real);
                } else {
                    two_to_monotone(-28, e);
                    two_to_reciprocal(28);
                    power_bounds(28);
                    let p = two_to(-28);
                    let q = two_to(e);
                    assert(s as real * q >= 0x100_0000real) by (nonlinear_arith)
                        requires
                            s >= 0x10_0000_0000_0000,
                            p <= q,
                            p * 0x1000_0000real == 1real,
                    ;
                    assert(k as real >= 0x100_0000real);
                }
            }
        }
    }

    /// Where the pattern stands in the order of numbers.
    pub open spec fn rank(self) -> int {
        if self.negative() {
            0x8000_0000_0000_0000 - self.bits
        } else {
            self.bits as int
        }
    }

    /// Whether one number comes before another when they are sorted. Undefined
    /// patterns come first or last, by their sign.
    pub fn comes_before(self, other: Num) -> (r: bool)
        ensures
            r == (self.rank() < other.rank()),
            self.finite() && other.finite() ==> r == (self.value() < other.value()),
    {
        proof {
            if self.finite() && other.finite() {
                rank_is_value_order(self, other);
                rank_is_value_order(other, self);
            }
        }
        let a: i128 = if self.bits >= 0x8000_0000_0000_0000 {
            0x8000_0000_0000_0000i128 - self.bits as i128
        } else {
            self.bits as i128
        };
        let b: i128 = if other.bits >= 0x8000_0000_0000_0000 {
            0x8000_0000_0000_0000i128 - other.bits as i128
        } else {
            other.bits as i128
        };
        a < b
    }

    /// Whether one number is no larger than another. An undefined pattern is
    /// neither larger nor smaller than any.
    pub open spec fn at_most(self, other: Num) -> bool {
        !self.undefined() && !other.undefined() && self.rank() <= other.rank()
    }

    /// Whether one number is no larger than another.
    pub fn is_at_most(self, other: Num) -> (r: bool)
        ensures
            r == self.at_most(other),
    {
        let a: bool = self.exponent_of() == 2047 && self.fraction_of() != 0;
        let b: bool = other.exponent_of() == 2047 && other.fraction_of() != 0;
        !a && !b && !other.comes_before(self)
    }

    /// Whether one number is smaller than another. An undefined pattern is
    /// neither larger nor smaller than any.
    pub open spec fn less(self, other: Num) -> bool {
        !self.undefined() && !other.undefined() && self.rank() < other.rank()
    }

    /// Whether one number is smaller than another.
    pub fn is_less(self, other: Num) -> (r: bool)
        ensures
            r == self.less(other),
            self.finite() && other.finite() ==> r == (self.value() < other.value()),
    {
        let a: bool = self.exponent_of() == 2047 && self.fraction_of() != 0;
        let b: bool = other.exponent_of() == 2047 && other.fraction_of() != 0;
        !a && !b && self.comes_before(other)
    }

    /// Whether two numbers are equal. An undefined pattern equals none, and plus
    /// zero equals minus zero.
    pub open spec fn equals(self, other: Num) -> bool {
        !self.undefined() && !other.undefined() && self.rank() == other.rank()
    }

    /// Whether two numbers are equal.
    pub fn is_equal(self, other: Num) -> (r: bool)
        ensures
            r == self.equals(other),
    {
        self.is_at_most(other) && other.is_at_most(self)
    }

    /// Whether the number is the integer `k`.
    pub open spec fn equals_integer(self, k: int) -> bool {
        self.value() == k as real
    }

    /// Whether the number is a whole one.
    pub open spec fn whole(self) -> bool {
        self.finite() && exists|k: int| #[trigger] self.equals_integer(k)
    }

    /// The number of halves in a number that is not negative, up to a limit
    /// far above every font weight.
    fn halves(self) -> (r: u64)
        requires
            self.finite(),
            !self.negative(),
        ensures
            r <= 4096,
            r < 4096 ==> r as real <= 2real * self.value() < r as real + 1real,
            r == 4096 ==> self.value() >= 2048real,
            r < 4096 ==> self.exponent_field() <= 1033,
    {
        let e: u64 = self.exponent_of();
        proof {
            self.sign_of_value();
        }
        if e < 1022 {
            proof {
                let s = self.significand();
                let q = two_to(self.exponent());
                two_to_positive(self.exponent());
                two_to_monotone(self.exponent(), -54);
                two_to_step(-54);
                two_to_reciprocal(53);
                power_bounds(53);
                let p = two_to(-53);
                assert(2real * (s as real * q) < 1real) by (nonlinear_arith)
                    requires
                        0 <= s < 0x20_0000_0000_0000,
                        0real < q,
                        2real * q <= p,
                        p * 0x20_0000_0000_0000real == 1real,
                ;
            }
            return 0;
        }
        if e > 1033 {
            proof {
                let s = self.significand();
                let q = two_to(self.exponent());
                two_to_monotone(-41, self.exponent());
                two_to_reciprocal(41);
                power_bounds(41);
                let p = two_to(-41);
                assert(s as real * q >= 2048real) by (nonlinear_arith)
                    requires
                        s >= 0x10_0000_0000_0000,
                        p <= q,
                        p * 0x200_0000_0000real == 1real,
                ;
            }
            return 4096;
        }
        let n: u64 = 1074 - e;
        let unit: u64 = power(n);
        let sig: u64 = 0x10_0000_0000_0000 + self.fraction_of();
        proof {
            power_bounds(n as nat);
        }
        let q: u64 = sig / unit;
        proof {
            let u = unit as int;
            let s = sig as int;
            assert(s == u * (s / u) + s % u && 0 <= s % u < u) by (nonlinear_arith)
                requires
                    u > 0,
            ;
            assert(q < 4096) by (nonlinear_arith)
                requires
                    q == s / u,
                    s < 0x20_0000_0000_0000,
                    u >= 0x200_0000_0000,
            ;
            two_to_reciprocal(n as nat);
            two_to_step(-(n as int) - 1);
            two_to_positive(-(n as int));
            let p = two_to(-(n as int));
            let v = self.value();
            let h = two_to(self.exponent());
            assert(2real * v == s as real * p) by (nonlinear_arith)
                requires
                    v == s as real * h,
                    p == 2real * h,
            ;
            real_product(u, q as int);
            let rest = s % u;
            assert(q as real <= 2real * v < q as real + 1real) by (nonlinear_arith)
                requires
                    2real * v == s as real * p,
                    p * (u as real) == 1real,
                    s as real == (u as real) * (q as real) + (rest as real),
                    0 <= rest < u,
                    p > 0real,
            ;
        }
        q
    }

    /// Whether `r` is the number with its fraction cut off. What is negative or
    /// undefined is cut to nought, and two to the power of 53 is the limit.
    pub open spec fn is_cut_to(self, r: u64) -> bool {
        &&& r <= 0x20_0000_0000_0000
        &&& !self.finite() ==> r == (if self.above_zero() {
            0x20_0000_0000_0000u64
        } else {
            0u64
        })
        &&& self.finite() && self.value() < 1real ==> r == 0
        &&& self.finite() && 1real <= self.value() < 9007199254740992real ==> r as real
            <= self.value() < r as real + 1real
        &&& self.finite() && self.value() >= 9007199254740992real ==> r == 0x20_0000_0000_0000
    }

    /// The number with its fraction cut off. What is negative or undefined is
    /// cut to nought, and two to the power of 53 is the limit.
    pub fn whole_part(self) -> (r: u64)
        ensures
            self.is_cut_to(r),
            forall|k: u64| self.is_cut_to(k) ==> k == r,
    {
        if !self.is_finite() {
            return if self.is_above_zero() {
                0x20_0000_0000_0000
            } else {
                0
            };
        }
        proof {
            self.sign_of_value();
        }
        if self.bits >= 0x8000_0000_0000_0000 {
            return 0;
        }
        let e: u64 = self.exponent_of();
        if e < 1023 {
            proof {
                let s = self.significand();
                let q = two_to(self.exponent());
                two_to_positive(self.exponent());
                two_to_monotone(self.exponent(), -53);
                two_to_reciprocal(53);
                power_bounds(53);
                let p = two_to(-53);
                assert(s as real * q < 1real) by (nonlinear_arith)
                    requires
                        0 <= s < 0x20_0000_0000_0000,
                        0real < q,
                        q <= p,
                        p * 0x20_0000_0000_0000real == 1real,
                ;
            }
            return 0;
        }
        if e > 1075 {
            proof {
                let s = self.significand();
                let q = two_to(self.exponent());
                two_to_monotone(1, self.exponent());
                two_to_step(0);
                assert(s as real * q >= 9007199254740992real) by (nonlinear_arith)
                    requires
                        s >= 0x10_0000_0000_0000,
                        q >= 2real,
                ;
            }
            return 0x20_0000_0000_0000;
        }
        let n: u64 = 1075 - e;
        let unit: u64 = power(n);
        let sig: u64 = 0x10_0000_0000_0000 + self.fraction_of();
        proof {
            power_limit(n as nat);
            two_to_reciprocal(n as nat);
        }
        let q: u64 = sig / unit;
        proof {
            let u = unit as int;
            let s = sig as int;
            assert(s == u * (s / u) + s % u && 0 <= s % u < u) by (nonlinear_arith)
                requires
                    u > 0,
            ;
            two_to_positive(-(n as int));
            let p = two_to(-(n as int));
            let v = self.value();
            real_product(u, q as int);
            let rest = s % u;
            assert(q as real <= v < q as real + 1real) by (nonlinear_arith)
                requires
                    v == s as real * p,
                    p * (u as real) == 1real,
                    s as real == (u as real) * (q as real) + (rest as real),
                    0 <= rest < u,
                    p > 0real,
            ;
            assert(q < 0x20_0000_0000_0000 && q <= s) by (nonlinear_arith)
                requires
                    q == s / u,
                    0 <= s < 0x20_0000_0000_0000,
                    u >= 1,
            ;
            assert(p <= 1real) by (nonlinear_arith)
                requires
                    p * (u as real) == 1real,
                    u >= 1,
                    p > 0real,
            ;
            assert(v < 9007199254740992real) by (nonlinear_arith)
                requires
                    v == s as real * p,
                    0 <= s < 0x20_0000_0000_0000,
                    0real < p <= 1real,
            ;
        }
        q
    }

    /// Whether `r` is the nearest whole number between `lo` and `hi`, halves
    /// rounding up. An undefined pattern is nearest to `lo`.
    pub open spec fn is_nearest_between(self, lo: u16, hi: u16, r: u16) -> bool {
        &&& lo <= r <= hi
        &&& !self.finite() ==> r == (if self.above_zero() {
            hi
        } else {
            lo
        })
        &&& self.finite() && self.value() < lo as real + half() ==> r == lo
        &&& self.finite() && self.value() >= hi as real - half() ==> r == hi
        &&& self.finite() && lo as real + half() <= self.value() < hi as real - half() ==> r as real
            - half() <= self.value() < r as real + half()
    }

    /// Whether `r` is the font weight that the number stands for: one from 1
    /// to 1000, where a whole number stands for itself, and any other rounds
    /// to the nearest of the nine standard weights, 100 to 900.
    pub open spec fn is_font_weight(self, r: u16) -> bool {
        &&& 1 <= r <= 1000
        &&& !self.finite() ==> r == (if self.above_zero() {
            1000u16
        } else {
            1u16
        })
        &&& self.finite() && self.value() < 1real ==> r == 1
        &&& self.finite() && self.value() > 1000real ==> r == 1000
        &&& self.whole() && 1real <= self.value() <= 1000real ==> r as real == self.value()
        &&& self.finite() && !self.whole() && 1real <= self.value() <= 1000real ==> {
            &&& r % 100 == 0 && 100 <= r <= 900
            &&& self.value() < 150real ==> r == 100
            &&& self.value() >= 850real ==> r == 900
            &&& 150real <= self.value() < 850real ==> r as real - 50real <= self.value() < r as real
                + 50real
        }
    }

    /// Whether `w` is the nearest to the number among the hundreds from 100 to
    /// 900, the larger of two that are as near.
    pub open spec fn is_nearest_hundred(self, w: u16) -> bool {
        &&& w % 100 == 0 && 100 <= w <= 900
        &&& w == 100 || w as real - 50real <= self.value()
        &&& w == 900 || self.value() < w as real + 50real
    }

    /// Whether the number lies between two whole numbers, 1 or above and 1000 or
    /// below, and `hundred` is the hundred nearest to it.
    pub open spec fn has_nearest_hundred(self, hundred: Num) -> bool {
        &&& self.finite() && !self.whole() && 1real <= self.value() <= 1000real
        &&& hundred.finite()
        &&& exists|w: u16| #[trigger]
            self.is_nearest_hundred(w) && hundred.value() == w as real
    }

    /// A number that is no whole one stands for the font weight that the hundred
    /// nearest to it stands for.
    pub proof fn font_weights_are_hundreds(self, hundred: Num)
        requires
            self.has_nearest_hundred(hundred),
        ensures
            (choose|w: u16| self.is_font_weight(w)) == (choose|w: u16| hundred.is_font_weight(w)),
            self.is_font_weight(choose|w: u16| self.is_font_weight(w)),
    {
        let w = choose|w: u16| #[trigger]
            self.is_nearest_hundred(w) && hundred.value() == w as real;
        assert(hundred.equals_integer(w as int));
        assert(hundred.whole());
        assert(self.is_font_weight(w));
        assert(hundred.is_font_weight(w));
        let a = choose|a: u16| self.is_font_weight(a);
        let b = choose|b: u16| hundred.is_font_weight(b);
        assert(self.is_font_weight(a));
        assert(hundred.is_font_weight(b));
        assert(b as real == w as real);
        if 150real <= self.value() < 850real {
            assert(w as real - 50real <= self.value() < w as real + 50real);
            assert((a as real) - (w as real) < 100real);
            assert((w as real) - (a as real) < 100real);
            assert(a - w < 100 && w - a < 100);
        }
    }

    /// The nearest whole number between `lo` and `hi`, halves rounding up. An
    /// undefined pattern gives `lo`.
    pub fn nearest_between(self, lo: u16, hi: u16) -> (r: u16)
        requires
            1 <= lo <= hi <= 1000,
        ensures
            self.is_nearest_between(lo, hi, r),
            forall|w: u16| self.is_nearest_between(lo, hi, w) ==> w == r,
    {
        if !self.is_finite() {
            return if self.is_above_zero() {
                hi
            } else {
                lo
            };
        }
        if self.bits >= 0x8000_0000_0000_0000 {
            proof {
                self.sign_of_value();
            }
            return lo;
        }
        let q: u64 = self.halves();
        let k: u64 = (q + 1) / 2;
        if k <= lo as u64 {
            lo
        } else if k >= hi as u64 {
            hi
        } else {
            k as u16
        }
    }

    /// Whether a number that is not negative and below the limit is whole.
    fn is_whole(self) -> (r: bool)
        requires
            self.finite(),
            !self.negative(),
            self.exponent_field() <= 1033,
        ensures
            r == self.whole(),
    {
        proof {
            self.sign_of_value();
        }
        let e: u64 = self.exponent_of();
        if self.bits == 0 {
            assert(self.equals_integer(0));
            return true;
        }
        if e < 1023 {
            proof {
                self.not_a_pick_index();
                let s = self.significand();
                let q = two_to(self.exponent());
                two_to_positive(self.exponent());
                two_to_monotone(self.exponent(), -53);
                two_to_reciprocal(53);
                power_bounds(53);
                let p = two_to(-53);
                assert(s as real * q < 1real) by (nonlinear_arith)
                    requires
                        0 < s < 0x20_0000_0000_0000,
                        0real < q <= p,
                        p * 0x20_0000_0000_0000real == 1real,
                ;
                assert(forall|k: int| !#[trigger] self.equals_integer(k));
            }
            return false;
        }
        let shift: u64 = 1075 - e;
        let unit: u64 = power(shift);
        let sig: u64 = 0x10_0000_0000_0000 + self.fraction_of();
        proof {
            power_bounds(shift as nat);
            let u = unit as int;
            let s = sig as int;
            assert(s == u * (s / u) + s % u) by (nonlinear_arith)
                requires
                    u > 0,
            ;
            self.whole_units(shift as nat, s / u);
            if s % u != 0 {
                assert forall|k: int| !#[trigger] self.equals_integer(k) by {
                    self.whole_units(shift as nat, k);
                    if s == u * k {
                        assert(s % u == 0) by (nonlinear_arith)
                            requires
                                s == u * k,
                                u > 0,
                        ;
                    }
                }
            } else {
                assert(self.equals_integer(s / u));
            }
        }
        sig % unit == 0
    }

    /// A font weight between 1 and 1000. A whole number is kept; any other
    /// rounds to the nearest of the nine standard weights, 100 to 900.
    pub fn font_weight(self) -> (r: u16)
        ensures
            self.is_font_weight(r),
            forall|w: u16| self.is_font_weight(w) ==> w == r,
    {
        if !self.is_finite() {
            return if self.is_above_zero() {
                1000
            } else {
                1
            };
        }
        if self.bits >= 0x8000_0000_0000_0000 {
            proof {
                self.sign_of_value();
            }
            return 1;
        }
        let q: u64 = self.halves();
        if q < 2 {
            return 1;
        }
        if q > 2000 {
            return 1000;
        }
        if self.is_whole() {
            proof {
                let k = choose|k: int| #[trigger] self.equals_integer(k);
                assert(q as int == 2 * k);
            }
            return (q / 2) as u16;
        }
        proof {
            if q == 2000 {
                if self.value() == 1000real {
                    assert(self.equals_integer(1000));
                }
            }
        }
        if q == 2000 {
            return 1000;
        }
        let m: u64 = (q + 100) / 200;
        if m < 1 {
            100
        } else if m > 9 {
            900
        } else {
            (m * 100) as u16
        }
    }

    /// For a number of at least one, the value is the integer `k` exactly when
    /// the significand is `k` units of the last place.
    proof fn whole_units(self, shift: nat, k: int)
        requires
            self.finite(),
            !self.negative(),
            self.exponent() == -(shift as int),
        ensures
            (self.value() == k as real) == (self.significand() == power_of_two(shift) as int * k),
            power_of_two(shift) > 0,
    {
        two_to_reciprocal(shift);
        let u = power_of_two(shift) as int;
        let p = two_to(-(shift as int));
        let s = self.significand();
        real_product(u, k);
        if s == u * k {
            assert(s as real * p == k as real) by (nonlinear_arith)
                requires
                    s as real == (u as real) * (k as real),
                    p * (u as real) == 1real,
            ;
        }
        if self.value() == k as real {
            assert(s as real == (u as real) * (k as real)) by (nonlinear_arith)
                requires
                    s as real * p == k as real,
                    p * (u as real) == 1real,
            ;
        }
    }
}

proof fn magnitude_grows(a: Num, b: Num)
    requires
        a.finite(),
        b.finite(),
        a.bits as int % 0x8000_0000_0000_0000 < b.bits as int % 0x8000_0000_0000_0000,
    ensures
        a.magnitude() < b.magnitude(),
{
    let sa = a.significand();
    let sb = b.significand();
    let ea = a.exponent();
    let eb = b.exponent();
    let pa = two_to(ea);
    let pb = two_to(eb);
    two_to_positive(ea);
    a.sign_of_value();
    assert(a.exponent_field() <= b.exponent_field());
    if ea == eb {
        assert(sa < sb);
        assert(sa as real * pa < sb as real * pa) by (nonlinear_arith)
            requires
                sa < sb,
                pa > 0real,
        ;
    } else {
        assert(ea < eb);
        assert(sb >= 0x10_0000_0000_0000);
        assert(sa < 0x20_0000_0000_0000);
        two_to_monotone(ea + 1, eb);
        two_to_step(ea);
        assert(sa as real * pa < sb as real * pb) by (nonlinear_arith)
            requires
                0 <= sa < 0x20_0000_0000_0000,
                sb >= 0x10_0000_0000_0000,
                pa > 0real,
                pb >= 2real * pa,
        ;
    }
}

/// The pattern without its sign bit.
pub open spec fn unsigned(n: Num) -> int {
    if n.negative() {
        n.bits - 0x8000_0000_0000_0000
    } else {
        n.bits as int
    }
}

proof fn unsigned_fields(n: Num)
    ensures
        n.exponent_field() == unsigned(n) / 0x10_0000_0000_0000,
        n.fraction() == unsigned(n) % 0x10_0000_0000_0000,
        unsigned(n) == n.bits as int % 0x8000_0000_0000_0000,
        0 <= unsigned(n) < 0x8000_0000_0000_0000,
{
}

/// The order of finite numbers is the order of their ranks.
pub proof fn rank_is_value_order(a: Num, b: Num)
    requires
        a.finite(),
        b.finite(),
    ensures
        a.rank() < b.rank() <==> a.value() < b.value(),
{
    let ma = unsigned(a);
    let mb = unsigned(b);
    unsigned_fields(a);
    unsigned_fields(b);
    a.sign_of_value();
    b.sign_of_value();
    assert(a.significand() > 0 <==> ma != 0);
    assert(b.significand() > 0 <==> mb != 0);
    assert(ma < mb ==> a.magnitude() < b.magnitude()) by {
        if ma < mb {
            magnitude_grows(a, b);
        }
    }
    assert(mb < ma ==> b.magnitude() < a.magnitude()) by {
        if mb < ma {
            magnitude_grows(b, a);
        }
    }
    assert(ma == mb ==> a.magnitude() == b.magnitude());
    lemma_signed_order(a, b);
}

proof fn lemma_signed_order(a: Num, b: Num)
    requires
        unsigned(a) < unsigned(b) ==> a.magnitude() < b.magnitude(),
        unsigned(b) < unsigned(a) ==> b.magnitude() < a.magnitude(),
        unsigned(a) == unsigned(b) ==> a.magnitude() == b.magnitude(),
        a.magnitude() >= 0real,
        b.magnitude() >= 0real,
        a.magnitude() > 0real <==> unsigned(a) != 0,
        b.magnitude() > 0real <==> unsigned(b) != 0,
        unsigned(a) >= 0,
        unsigned(b) >= 0,
    ensures
        a.rank() < b.rank() <==> a.value() < b.value(),
{
    assert(a.rank() == (if a.negative() {
        -unsigned(a)
    } else {
        unsigned(a)
    }));
    assert(b.rank() == (if b.negative() {
        -unsigned(b)
    } else {
        unsigned(b)
    }));
    let va = a.value();
    let vb = b.value();
    let ma = a.magnitude();
    let mb = b.magnitude();
    assert(va == if a.negative() {
        0real - ma
    } else {
        ma
    });
    assert(vb == if b.negative() {
        0real - mb
    } else {
        mb
    });
}

proof fn real_product(a: int, b: int)
    ensures
        (a * b) as real == (a as real) * (b as real),
{
    assert((a * b) as real == (a as real) * (b as real)) by (nonlinear_arith);
}

proof fn power_bounds(n: nat)
    ensures
        n == 28 ==> power_of_two(n) == 0x1000_0000,
        n == 53 ==> power_of_two(n) == 0x20_0000_0000_0000,
        n == 41 ==> power_of_two(n) == 0x200_0000_0000,
        41 <= n <= 52 ==> 0x200_0000_0000 <= power_of_two(n),
        29 <= n <= 52 ==> 0x2000_0000 <= power_of_two(n) <= 0x10_0000_0000_0000,
{
    reveal_with_fuel(power_of_two, 14);
    assert(power_of_two(13) == 0x2000);
    power_sum(13, 13);
    assert(power_of_two(26) == 0x400_0000);
    assert(power_of_two(28) == 0x1000_0000);
    assert(power_of_two(29) == 0x2000_0000);
    power_sum(13, 28);
    assert(power_of_two(41) == 0x200_0000_0000);
    power_sum(26, 26);
    assert(power_of_two(52) == 0x10_0000_0000_0000);
    assert(power_of_two(53) == 0x20_0000_0000_0000);
    if 41 <= n <= 52 {
        power_monotone(41, n);
    }
    if 29 <= n <= 52 {
        power_monotone(29, n);
        power_monotone(n, 52);
    }
}

proof fn power_monotone(a: nat, b: nat)
    requires
        a <= b,
    ensures
        power_of_two(a) <= power_of_two(b),
    decreases b - a,
{
    if a < b {
        power_monotone(a, (b - 1) as nat);
    }
}

proof fn power_sum(a: nat, b: nat)
    ensures
        power_of_two(a + b) == power_of_two(a) * power_of_two(b),
    decreases a,
{
    if a == 0 {
        assert(1 * power_of_two(b) == power_of_two(b));
    } else {
        power_sum((a - 1) as nat, b);
        let p = power_of_two((a - 1) as nat);
        let q = power_of_two(b);
        assert(2 * (p * q) == (2 * p) * q) by (nonlinear_arith);
        assert((a - 1 + b) as nat == (a + b - 1) as nat);
    }
}

proof fn power_limit(n: nat)
    requires
        n <= 62,
    ensures
        power_of_two(n) <= 0x4000_0000_0000_0000,
        n <= 61 ==> power_of_two(n) <= 0x2000_0000_0000_0000,
{
    assert(power_of_two(28) == 0x1000_0000) by {
        power_bounds(28);
    }
    power_sum(28, 28);
    assert(power_of_two(56) == 0x100_0000_0000_0000);
    assert(power_of_two(61) == 0x2000_0000_0000_0000) by {
        reveal_with_fuel(power_of_two, 6);
    }
    assert(power_of_two(62) == 2 * power_of_two(61));
    power_monotone(n, 62);
    if n <= 61 {
        power_monotone(n, 61);
    }
}

/// Two to the power `n`.
fn power(n: u64) -> (r: u64)
    requires
        n <= 62,
    ensures
        r == power_of_two(n as nat),
{
    let mut r: u64 = 1;
    let mut i: u64 = 0;
    while i < n
        invariant
            i <= n <= 62,
            r == power_of_two(i as nat),
        decreases n - i,
    {
        proof {
            power_limit(i as nat);
        }
        r = r * 2;
        i = i + 1;
    }
    r
}

} // verus!
