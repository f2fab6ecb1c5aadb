//! IEEE-754 doubles and singles, held by their bit patterns.
//!
//! The library orders and classifies these numbers, narrows them, doubles
//! them, takes them an integer number of times and forms quotients of
//! integers, each rounded as IEEE-754 has it. A bit pattern is split into sign and magnitude: among numbers that
//! are not NaN the magnitudes order the absolute values, so that the signed
//! magnitude is an integer that orders the numbers exactly as IEEE-754 does
//! (both zeros have signed magnitude 0).
use vstd::prelude::*;

verus! {

/// A double, by its bit pattern.
#[derive(Clone, Copy, Debug, PartialEq, Eq, Structural)]
pub struct Double {
    pub bits: u64,
}

/// The sign bit.
pub const SIGN: u64 = 0x8000_0000_0000_0000;

/// The magnitude of infinity; larger magnitudes are NaN.
pub const INFINITE: u64 = 0x7FF0_0000_0000_0000;

impl Double {
    /// The bit pattern without its sign.
    pub open spec fn mag(self) -> int {
        if self.bits >= SIGN {
            self.bits - SIGN
        } else {
            self.bits as int
        }
    }

    /// The integer that orders the number among those that are not NaN.
    pub open spec fn rank(self) -> int {
        if self.bits >= SIGN {
            -self.mag()
        } else {
            self.mag()
        }
    }

    /// Not a number.
    pub open spec fn nan(self) -> bool {
        self.mag() > INFINITE
    }

    /// Neither infinite nor NaN.
    pub open spec fn finite(self) -> bool {
        self.mag() < INFINITE
    }

    /// `self < other`, as IEEE-754 has it.
    pub open spec fn below(self, other: Double) -> bool {
        !self.nan() && !other.nan() && self.rank() < other.rank()
    }

    /// `self <= other`, as IEEE-754 has it.
    pub open spec fn at_most(self, other: Double) -> bool {
        !self.nan() && !other.nan() && self.rank() <= other.rank()
    }

    pub fn new(bits: u64) -> (r: Double)
        ensures
            r.bits == bits,
    {
        Double { bits }
    }

    fn magnitude(self) -> (m: u64)
        ensures
            m == self.mag(),
    {
        if self.bits >= SIGN {
            self.bits - SIGN
        } else {
            self.bits
        }
    }

    pub fn is_nan(self) -> (r: bool)
        ensures
            r == self.nan(),
    {
        self.magnitude() > INFINITE
    }

    pub fn is_finite(self) -> (r: bool)
        ensures
            r == self.finite(),
    {
        self.magnitude() < INFINITE
    }

    /// `self < other`.
    pub fn lt(self, other: Double) -> (r: bool)
        ensures
            r == self.below(other),
    {
        if self.is_nan() || other.is_nan() {
            return false;
        }
        let a: u64 = self.magnitude();
        let b: u64 = other.magnitude();
        if self.bits >= SIGN {
            if other.bits >= SIGN {
                a > b
            } else {
                a > 0 || b > 0
            }
        } else {
            other.bits < SIGN && a < b
        }
    }

    /// The greater of two numbers; of a number and a NaN, the number.
    pub open spec fn greater(self, other: Double) -> Double {
        if self.nan() || self.below(other) {
            other
        } else {
            self
        }
    }

    /// The greater of two numbers; of a number and a NaN, the number.
    pub fn max_with(self, other: Double) -> (r: Double)
        ensures
            r == self.greater(other),
    {
        if self.is_nan() || self.lt(other) {
            other
        } else {
            self
        }
    }

    /// The lesser of two numbers; of a number and a NaN, the number.
    pub open spec fn lesser(self, other: Double) -> Double {
        if self.nan() || other.below(self) {
            other
        } else {
            self
        }
    }

    /// The lesser of two numbers; of a number and a NaN, the number.
    pub fn min_with(self, other: Double) -> (r: Double)
        ensures
            r == self.lesser(other),
    {
        if self.is_nan() || other.lt(self) {
            other
        } else {
            self
        }
    }

    /// The number, moved into `lo..=hi` when it lies outside.
    pub open spec fn clamped(self, lo: Double, hi: Double) -> Double {
        if self.below(lo) {
            lo
        } else if hi.below(self) {
            hi
        } else {
            self
        }
    }

    /// The number, moved into `lo..=hi` when it lies outside.
    pub fn clamp_to(self, lo: Double, hi: Double) -> (r: Double)
        ensures
            r == self.clamped(lo, hi),
    {
        if self.lt(lo) {
            lo
        } else if hi.lt(self) {
            hi
        } else {
            self
        }
    }

    /// `self <= other`.
    pub fn le(self, other: Double) -> (r: bool)
        ensures
            r == self.at_most(other),
    {
        if self.is_nan() || other.is_nan() {
            return false;
        }
        !other.lt(self)
    }
}

/// A single, by its bit pattern.
#[derive(Clone, Copy, Debug, PartialEq, Eq, Structural)]
pub struct Single {
    pub bits: u32,
}

/// The sign bit of a single.
pub const SINGLE_SIGN: u32 = 0x8000_0000;

/// The magnitude of infinity in singles; larger magnitudes are NaN.
pub const SINGLE_INFINITE: u32 = 0x7F80_0000;

impl Single {
    /// The bit pattern without its sign.
    pub open spec fn mag(self) -> int {
        if self.bits >= SINGLE_SIGN {
            self.bits - SINGLE_SIGN
        } else {
            self.bits as int
        }
    }

    /// The integer that orders the number among those that are not NaN.
    pub open spec fn rank(self) -> int {
        if self.bits >= SINGLE_SIGN {
            -self.mag()
        } else {
            self.mag()
        }
    }

    /// Not a number.
    pub open spec fn nan(self) -> bool {
        self.mag() > SINGLE_INFINITE
    }

    /// Neither infinite nor NaN.
    pub open spec fn finite(self) -> bool {
        self.mag() < SINGLE_INFINITE
    }

    /// `self < other`, as IEEE-754 has it.
    pub open spec fn below(self, other: Single) -> bool {
        !self.nan() && !other.nan() && self.rank() < other.rank()
    }

    /// `self <= other`, as IEEE-754 has it.
    pub open spec fn at_most(self, other: Single) -> bool {
        !self.nan() && !other.nan() && self.rank() <= other.rank()
    }

    fn magnitude(self) -> (m: u32)
        ensures
            m == self.mag(),
    {
        if self.bits >= SINGLE_SIGN {
            self.bits - SINGLE_SIGN
        } else {
            self.bits
        }
    }

    pub fn is_nan(self) -> (r: bool)
        ensures
            r == self.nan(),
    {
        self.magnitude() > SINGLE_INFINITE
    }

    pub fn is_finite(self) -> (r: bool)
        ensures
            r == self.finite(),
    {
        self.magnitude() < SINGLE_INFINITE
    }

    /// `self < other`.
    pub fn lt(self, other: Single) -> (r: bool)
        ensures
            r == self.below(other),
    {
        if self.is_nan() || other.is_nan() {
            return false;
        }
        let a: u32 = self.magnitude();
        let b: u32 = other.magnitude();
        if self.bits >= SINGLE_SIGN {
            if other.bits >= SINGLE_SIGN {
                a > b
            } else {
                a > 0 || b > 0
            }
        } else {
            other.bits < SINGLE_SIGN && a < b
        }
    }

    /// The number, moved into `lo..=hi` when it lies outside.
    pub open spec fn clamped(self, lo: Single, hi: Single) -> Single {
        if self.below(lo) {
            lo
        } else if hi.below(self) {
            hi
        } else {
            self
        }
    }

    /// The number, moved into `lo..=hi` when it lies outside.
    pub fn clamp_to(self, lo: Single, hi: Single) -> (r: Single)
        ensures
            r == self.clamped(lo, hi),
    {
        if self.lt(lo) {
            lo
        } else if hi.lt(self) {
            hi
        } else {
            self
        }
    }

    /// `self <= other`.
    pub fn le(self, other: Single) -> (r: bool)
        ensures
            r == self.at_most(other),
    {
        if self.is_nan() || other.is_nan() {
            return false;
        }
        !other.lt(self)
    }
}

/// `2^k`.
pub open spec fn two_to(k: nat) -> nat
    decreases k,
{
    if k == 0 {
        1
    } else {
        2 * two_to((k - 1) as nat)
    }
}

/// `p / d` rounded to the nearest integer, ties to the even one.
pub open spec fn nearest_even(p: nat, d: nat) -> nat {
    let q = p / d;
    let r = p % d;
    if 2 * r > d || (2 * r == d && q % 2 == 1) {
        q + 1
    } else {
        q
    }
}

fn round_nearest_even(p: u128, d: u128) -> (r: u128)
    requires
        0 < d < 0x4000_0000_0000_0000_0000_0000_0000_0000,
        p < 0x4000_0000_0000_0000_0000_0000_0000_0000,
    ensures
        r == nearest_even(p as nat, d as nat),
{
    let q: u128 = p / d;
    let r: u128 = p % d;
    proof {
        assert(p as nat / d as nat == q) by (nonlinear_arith)
            requires
                q == p / d,
                d > 0,
        ;
        assert(p as nat % d as nat == r) by (nonlinear_arith)
            requires
                r == p % d,
                d > 0,
        ;
        assert(q <= p) by (nonlinear_arith)
            requires
                q == p / d,
                d > 0,
        ;
        assert(r < d) by (nonlinear_arith)
            requires
                r == p % d,
                d > 0,
        ;
    }
    if 2 * r > d || (2 * r == d && q % 2 == 1) {
        q + 1
    } else {
        q
    }
}

/// The step between the exponent biases of doubles and singles, as a double's
/// magnitude: `(1023 - 127) * 2^52`.
pub const REBIAS: u64 = 0x3800_0000_0000_0000;

impl Double {
    /// The magnitude of the single nearest to this number: the 29 fraction
    /// bits that a single lacks are rounded off (ties to even), more of them
    /// where the single is subnormal. A carry out of the fraction moves the
    /// exponent up, as it should.
    pub open spec fn narrowed_mag(self) -> nat {
        let m = self.mag();
        if m > INFINITE {
            0x7FC0_0000
        } else if m >= REBIAS + 0x10_0000_0000_0000 {
            let r = nearest_even((m - REBIAS) as nat, 0x2000_0000);
            if r < SINGLE_INFINITE {
                r
            } else {
                SINGLE_INFINITE as nat
            }
        } else {
            let e = m / 0x10_0000_0000_0000;
            if 897 - e > 25 {
                0
            } else {
                nearest_even(
                    (m % 0x10_0000_0000_0000 + 0x10_0000_0000_0000) as nat,
                    two_to((29 + 897 - e) as nat),
                )
            }
        }
    }

    /// The single nearest to this number (infinite when too large).
    pub open spec fn narrowed(self) -> Single {
        Single {
            bits: (self.narrowed_mag() + (if self.bits >= SIGN {
                SINGLE_SIGN as nat
            } else {
                0
            })) as u32,
        }
    }

    /// The single nearest to this number.
    pub fn narrow(self) -> (r: Single)
        ensures
            r == self.narrowed(),
    {
        let m: u64 = self.magnitude();
        let mag: u32;
        if m > INFINITE {
            mag = 0x7FC0_0000;
        } else if m >= REBIAS + 0x10_0000_0000_0000 {
            let r: u128 = round_nearest_even((m - REBIAS) as u128, 0x2000_0000);
            proof {
                nearest_even_bound((m - REBIAS) as nat, 0x2000_0000);
            }
            if r < SINGLE_INFINITE as u128 {
                mag = r as u32;
            } else {
                mag = SINGLE_INFINITE;
            }
        } else {
            let e: u64 = m / 0x10_0000_0000_0000;
            if e < 872 {
                mag = 0;
            } else {
                let d: u128 = power_of_two((926 - e) as u32);
                let p: u128 = (m % 0x10_0000_0000_0000 + 0x10_0000_0000_0000) as u128;
                proof {
                    two_to_grows(30, (926 - e) as nat);
                    assert(two_to(30) == 0x4000_0000) by {
                        reveal_with_fuel(two_to, 31);
                    }
                    nearest_even_bound(p as nat, d as nat);
                    assert(p / d <= p / 0x4000_0000) by (nonlinear_arith)
                        requires
                            d >= 0x4000_0000,
                            p >= 0,
                    ;
                }
                let r: u128 = round_nearest_even(p, d);
                mag = r as u32;
            }
        }
        if self.bits >= SIGN {
            Single { bits: mag + SINGLE_SIGN }
        } else {
            Single { bits: mag }
        }
    }
}

proof fn nearest_even_bound(p: nat, d: nat)
    requires
        d > 0,
    ensures
        p / d <= nearest_even(p, d) <= p / d + 1,
{
}

/// Powers of two grow with the exponent.
pub proof fn two_to_grows(a: nat, b: nat)
    requires
        a <= b,
    ensures
        0 < two_to(a) <= two_to(b),
    decreases b,
{
    if a < b {
        two_to_grows(a, (b - 1) as nat);
    } else if a > 0 {
        two_to_grows((a - 1) as nat, (a - 1) as nat);
    }
}

proof fn two_to_splits(a: nat, b: nat)
    ensures
        two_to(a + b) == two_to(a) * two_to(b),
    decreases b,
{
    if b == 0 {
        assert(two_to(a) * 1 == two_to(a));
    } else {
        two_to_splits(a, (b - 1) as nat);
        assert(two_to(a + b) == 2 * two_to((a + b - 1) as nat));
        assert(two_to(a) * (2 * two_to((b - 1) as nat)) == 2 * (two_to(a) * two_to(
            (b - 1) as nat,
        ))) by (nonlinear_arith);
    }
}

proof fn two_to_125()
    ensures
        two_to(53) == 0x20_0000_0000_0000,
        two_to(125) == 0x2000_0000_0000_0000_0000_0000_0000_0000,
{
    assert(two_to(25) == 0x200_0000) by {
        reveal_with_fuel(two_to, 26);
    }
    assert(two_to(28) == 0x1000_0000) by {
        reveal_with_fuel(two_to, 29);
    }
    two_to_splits(25, 28);
    two_to_splits(25, 25);
    assert(0x200_0000 * 0x200_0000 == 0x4_0000_0000_0000);
    two_to_splits(50, 50);
    assert(0x4_0000_0000_0000 * 0x4_0000_0000_0000 == 0x10_0000_0000_0000_0000_0000_0000);
    two_to_splits(100, 25);
    assert(0x10_0000_0000_0000_0000_0000_0000 * 0x200_0000
        == 0x2000_0000_0000_0000_0000_0000_0000_0000);
}

/// `2^k`, for `k` up to 125.
fn power_of_two(k: u32) -> (r: u128)
    requires
        k < 126,
    ensures
        r == two_to(k as nat),
        0 < r < 0x4000_0000_0000_0000_0000_0000_0000_0000,
{
    let mut r: u128 = 1;
    let mut i: u32 = 0;
    proof {
        two_to_125();
        two_to_grows(0, k as nat);
        two_to_grows(k as nat, 125);
    }
    while i < k
        invariant
            i <= k < 126,
            r == two_to(i as nat),
            two_to(125) == 0x2000_0000_0000_0000_0000_0000_0000_0000,
        decreases k - i,
    {
        proof {
            two_to_grows((i + 1) as nat, 125);
        }
        r = 2 * r;
        i = i + 1;
    }
    r
}

/// How many of the low bits of `p` lie beyond 53 significant ones.
pub open spec fn excess(p: nat) -> nat
    decreases p,
{
    if p < 0x20_0000_0000_0000 {
        0
    } else {
        1 + excess(p / 2)
    }
}

/// How often `n` can be doubled before it has 53 significant bits.
pub open spec fn lack(n: nat) -> nat
    decreases
            (if n < 0x10_0000_0000_0000 {
                0x10_0000_0000_0000 - n
            } else {
                0
            }),
{
    if n == 0 || n >= 0x10_0000_0000_0000 {
        0
    } else {
        1 + lack(2 * n)
    }
}

/// The bit pattern of the double nearest to a whole number, ties to even.
pub open spec fn whole_bits(n: nat) -> int {
    if n == 0 {
        0
    } else {
        (1074 + excess(n) - lack(n)) * 0x10_0000_0000_0000 + nearest_even(
            n * two_to(lack(n)),
            two_to(excess(n)),
        )
    }
}

/// The value of the double nearest to a whole number, ties to even. Every
/// number up to 2^53 is its own.
pub open spec fn whole(n: nat) -> nat {
    nearest_even(n, two_to(excess(n))) * two_to(excess(n))
}

impl Double {
    /// Twice the number. Beyond the greatest number lies the infinite one; an
    /// infinite number and a NaN stay what they are.
    pub open spec fn twice(self) -> Double {
        let sign = self.bits - self.mag();
        if self.mag() >= INFINITE {
            self
        } else if self.mag() < 0x10_0000_0000_0000 {
            Double { bits: (sign + 2 * self.mag()) as u64 }
        } else if self.mag() + 0x10_0000_0000_0000 < INFINITE {
            Double { bits: (sign + self.mag() + 0x10_0000_0000_0000) as u64 }
        } else {
            Double { bits: (sign + INFINITE) as u64 }
        }
    }

    /// Twice the number.
    pub fn doubled(self) -> (r: Double)
        ensures
            r == self.twice(),
    {
        let m: u64 = self.magnitude();
        let sign: u64 = self.bits - m;
        if m >= INFINITE {
            self
        } else if m < 0x10_0000_0000_0000 {
            Double { bits: sign + 2 * m }
        } else if m + 0x10_0000_0000_0000 < INFINITE {
            Double { bits: sign + (m + 0x10_0000_0000_0000) }
        } else {
            Double { bits: sign + INFINITE }
        }
    }

    /// The integer significand of a finite number.
    pub open spec fn significand(self) -> nat {
        if self.mag() < 0x10_0000_0000_0000 {
            self.mag() as nat
        } else {
            (self.mag() % 0x10_0000_0000_0000 + 0x10_0000_0000_0000) as nat
        }
    }

    /// The power of two that scales the significand of a finite number.
    pub open spec fn scale(self) -> int {
        if self.mag() < 0x10_0000_0000_0000 {
            -1074
        } else {
            self.mag() / 0x10_0000_0000_0000 - 1075
        }
    }

    /// The significand of the double nearest to `self * n` (ties to even).
    pub open spec fn product_significand(self, n: nat) -> nat {
        nearest_even(self.significand() * n, two_to(excess(self.significand() * n)))
    }

    /// The power of two that scales `product_significand`.
    pub open spec fn product_scale(self, n: nat) -> int {
        self.scale() + excess(self.significand() * n)
    }

    /// The double nearest to `self * n`, cut to an integer.
    pub open spec fn times_truncated(self, n: nat) -> nat {
        let k = self.product_scale(n);
        if k < 0 {
            self.product_significand(n) / two_to((-k) as nat)
        } else {
            self.product_significand(n) * two_to(k as nat)
        }
    }

    /// The double nearest to `self * n`, rounded to an integer, halves away
    /// from zero.
    pub open spec fn times_rounded(self, n: nat) -> nat {
        let k = self.product_scale(n);
        if k < 0 {
            (self.product_significand(n) + two_to((-k - 1) as nat)) / two_to((-k) as nat)
        } else {
            self.product_significand(n) * two_to(k as nat)
        }
    }

    /// The double nearest to `self * n`, rounded up to an integer.
    pub open spec fn times_ceiled(self, n: nat) -> nat {
        let k = self.product_scale(n);
        if k < 0 {
            ((self.product_significand(n) + two_to((-k) as nat) - 1) / (two_to(
                (-k) as nat,
            ) as int)) as nat
        } else {
            self.product_significand(n) * two_to(k as nat)
        }
    }

    /// What a cast to 64 bits makes of `self * n`, where a finite product of
    /// no sign comes to `v`: zero if it is negative or not a number, the
    /// greatest integer if it is beyond that.
    pub open spec fn cast(self, n: nat, v: nat) -> nat {
        if self.nan() || self.bits >= SIGN || n == 0 {
            0
        } else if !self.finite() || v > u64::MAX {
            u64::MAX as nat
        } else {
            v
        }
    }

    /// Non-negative and below 2^20.
    pub open spec fn moderate(self) -> bool {
        self.bits < 0x4130_0000_0000_0000
    }

    /// The significand and the scale of the double nearest to `self * n`.
    fn product(self, n: u128) -> (r: (u128, i32))
        requires
            self.bits < INFINITE,
            n <= 0x1_0000_0000_0000_0000,
        ensures
            r.0 == self.product_significand(n as nat),
            r.1 == self.product_scale(n as nat),
            -1074 <= r.1 <= 1040,
            r.0 <= 0x20_0000_0000_0000,
            self.moderate() && n <= u32::MAX ==> r.1 < 0,
    {
        let low: u64 = self.bits % 0x10_0000_0000_0000;
        let m: u128;
        let e: i32;
        if self.bits < 0x10_0000_0000_0000 {
            m = self.bits as u128;
            e = -1074;
        } else {
            m = (low + 0x10_0000_0000_0000) as u128;
            e = (self.bits / 0x10_0000_0000_0000) as i32 - 1075;
        }
        assert(-1074 <= e <= 971);
        proof {
            two_to_64();
            assert(m * n < 0x20_0000_0000_0000 * 0x1_0000_0000_0000_0000) by (nonlinear_arith)
                requires
                    m < 0x20_0000_0000_0000,
                    n <= 0x1_0000_0000_0000_0000,
            ;
        }
        let p: u128 = m * n;
        let mut rest: u128 = p;
        let mut s: u32 = 0;
        proof {
            assert(two_to(0) == 1);
            assert(rest as int * 1 == rest);
        }
        while rest >= 0x20_0000_0000_0000
            invariant
                s + excess(rest as nat) == excess(p as nat),
                p < 0x20_0000_0000_0000 * 0x1_0000_0000_0000_0000,
                rest as int * two_to(s as nat) <= p,
                two_to(s as nat) > 0,
                two_to(64) == 0x1_0000_0000_0000_0000,
                s <= 64,
            decreases rest,
        {
            proof {
                let t = two_to(s as nat);
                if s == 64 {
                    assert(rest * t >= 0x20_0000_0000_0000 * 0x1_0000_0000_0000_0000)
                        by (nonlinear_arith)
                        requires
                            rest >= 0x20_0000_0000_0000,
                            t == 0x1_0000_0000_0000_0000,
                    ;
                }
                assert((rest / 2) * (2 * t) <= rest * t) by (nonlinear_arith)
                    requires
                        rest >= 0,
                        t > 0,
                ;
            }
            rest = rest / 2;
            s = s + 1;
        }
        assert(excess(rest as nat) == 0);
        let d: u128 = power_of_two(s);
        proof {
            product_fits(p as nat);
            if n <= u32::MAX {
                assert(two_to(32) == 0x1_0000_0000) by {
                    reveal_with_fuel(two_to, 33);
                }
                assert(m * n < 0x20_0000_0000_0000 * 0x1_0000_0000) by (nonlinear_arith)
                    requires
                        m < 0x20_0000_0000_0000,
                        n < 0x1_0000_0000,
                ;
                excess_bound(p as nat, 32);
            }
        }
        (round_nearest_even(p, d), e + s as i32)
    }

    /// `q * 2^k`, or the greatest integer where that is more.
    fn scaled_up(q: u128, k: i32) -> (r: u64)
        requires
            q <= 0x20_0000_0000_0000,
            0 <= k <= 1040,
        ensures
            r == (if q * two_to(k as nat) > u64::MAX {
                u64::MAX as int
            } else {
                q * two_to(k as nat)
            }),
    {
        if q == 0 {
            assert(0 * two_to(k as nat) == 0);
            return 0;
        }
        if k >= 64 {
            proof {
                two_to_64();
                two_to_grows(64, k as nat);
                assert(q * two_to(k as nat) >= two_to(k as nat)) by (nonlinear_arith)
                    requires
                        q >= 1,
                        two_to(k as nat) > 0,
                ;
            }
            return u64::MAX;
        }
        let t: u128 = power_of_two(k as u32);
        proof {
            two_to_125();
            two_to_splits(53, 10);
            assert(two_to(10) == 1024) by {
                reveal_with_fuel(two_to, 11);
            }
            two_to_grows(k as nat, 63);
            assert(q * t <= 0x20_0000_0000_0000 * 0x8000_0000_0000_0000) by (nonlinear_arith)
                requires
                    q <= 0x20_0000_0000_0000,
                    t <= 0x8000_0000_0000_0000,
            ;
        }
        let v: u128 = q * t;
        if v > u64::MAX as u128 {
            u64::MAX
        } else {
            v as u64
        }
    }

    /// The double nearest to `self * n`, cut to an integer of 64 bits.
    pub fn mul_trunc(self, n: u64) -> (r: u64)
        ensures
            r == self.cast(whole(n as nat), self.times_truncated(whole(n as nat))),
            n <= 0x20_0000_0000_0000 ==> whole(n as nat) == n,
            self.moderate() && n <= u32::MAX ==> r == self.times_truncated(n as nat) && r
                <= 0x20_0000_0000_0000,
    {
        if self.bits >= INFINITE || n == 0 {
            proof {
                self.no_product();
                small_numbers_are_whole(n as nat);
                whole_is_positive(n as nat);
            }
            return if self.bits == INFINITE && n > 0 {
                u64::MAX
            } else {
                0
            };
        }
        let w: u128 = nearest_whole(n);
        let (q, k) = self.product(w);
        if k >= 0 {
            return Double::scaled_up(q, k);
        }
        let k: u32 = (-k) as u32;
        proof {
            two_to_125();
            two_to_grows(1, k as nat);
        }
        if k > 125 {
            proof {
                two_to_grows(125, k as nat);
                small_quotient(q as nat, two_to(k as nat));
            }
            0
        } else {
            let d: u128 = power_of_two(k);
            proof {
                assert(q / d <= q) by (nonlinear_arith)
                    requires
                        d > 0,
                ;
            }
            (q / d) as u64
        }
    }

    /// The double nearest to `self * n`, rounded up to an integer of 64 bits.
    pub fn mul_ceil(self, n: u64) -> (r: u64)
        ensures
            r == self.cast(whole(n as nat), self.times_ceiled(whole(n as nat))),
            n <= 0x20_0000_0000_0000 ==> whole(n as nat) == n,
            self.moderate() && n <= u32::MAX ==> r == self.times_ceiled(n as nat) && r
                <= 0x20_0000_0000_0000,
    {
        if self.bits >= INFINITE || n == 0 {
            proof {
                self.no_product();
                small_numbers_are_whole(n as nat);
                whole_is_positive(n as nat);
            }
            return if self.bits == INFINITE && n > 0 {
                u64::MAX
            } else {
                0
            };
        }
        let w: u128 = nearest_whole(n);
        let (q, k) = self.product(w);
        if k >= 0 {
            return Double::scaled_up(q, k);
        }
        let k: u32 = (-k) as u32;
        proof {
            two_to_125();
            two_to_grows(1, k as nat);
        }
        if k > 125 {
            let ghost d = two_to(k as nat);
            proof {
                two_to_grows(125, k as nat);
            }
            if q == 0 {
                proof {
                    small_quotient((d - 1) as nat, d);
                }
                0
            } else {
                proof {
                    assert((q + d - 1) / (d as int) == 1) by (nonlinear_arith)
                        requires
                            1 <= q <= d,
                    ;
                }
                1
            }
        } else {
            let d: u128 = power_of_two(k);
            proof {
                assert((q + d - 1) / (d as int) <= q) by (nonlinear_arith)
                    requires
                        q >= 0,
                        d >= 1,
                ;
            }
            ((q + (d - 1)) / d) as u64
        }
    }

    /// The double nearest to `self * n`, rounded to an integer of 64 bits,
    /// halves away from zero.
    pub fn mul_round(self, n: u64) -> (r: u64)
        ensures
            r == self.cast(whole(n as nat), self.times_rounded(whole(n as nat))),
            n <= 0x20_0000_0000_0000 ==> whole(n as nat) == n,
            self.moderate() && n <= u32::MAX ==> r == self.times_rounded(n as nat) && r
                <= 0x20_0000_0000_0000,
    {
        if self.bits >= INFINITE || n == 0 {
            proof {
                self.no_product();
                small_numbers_are_whole(n as nat);
                whole_is_positive(n as nat);
            }
            return if self.bits == INFINITE && n > 0 {
                u64::MAX
            } else {
                0
            };
        }
        let w: u128 = nearest_whole(n);
        let (q, k) = self.product(w);
        if k >= 0 {
            return Double::scaled_up(q, k);
        }
        let k: u32 = (-k) as u32;
        proof {
            two_to_125();
            two_to_grows(1, k as nat);
        }
        if k > 125 {
            proof {
                two_to_grows(125, (k - 1) as nat);
                small_quotient((q + two_to((k - 1) as nat)) as nat, two_to(k as nat));
            }
            0
        } else {
            let d: u128 = power_of_two(k);
            let half: u128 = power_of_two(k - 1);
            proof {
                assert((q + half) / (d as int) <= q) by (nonlinear_arith)
                    requires
                        d == 2 * half,
                        half > 0,
                        q >= 0,
                ;
            }
            ((q + half) / d) as u64
        }
    }

    /// A finite number of no sign, taken no times, comes to nothing.
    proof fn no_product(self)
        ensures
            self.bits < INFINITE ==> {
                &&& self.times_truncated(0) == 0
                &&& self.times_rounded(0) == 0
                &&& self.times_ceiled(0) == 0
            },
    {
        if self.bits < INFINITE {
            assert(self.significand() * 0 == 0);
            assert(excess(0) == 0);
            assert(two_to(0) == 1);
            assert(nearest_even(0, 1) == 0);
            let k = self.product_scale(0);
            if k < 0 {
                let d = two_to((-k) as nat);
                two_to_grows(0, (-k - 1) as nat);
                small_quotient(0, d);
                small_quotient(two_to((-k - 1) as nat), d);
                small_quotient((d - 1) as nat, d);
            } else {
                assert(0 * two_to(k as nat) == 0);
            }
        }
    }
}

proof fn two_to_64()
    ensures
        two_to(53) == 0x20_0000_0000_0000,
        two_to(64) == 0x1_0000_0000_0000_0000,
{
    two_to_125();
    two_to_splits(53, 11);
    assert(two_to(11) == 2048) by {
        reveal_with_fuel(two_to, 12);
    }
}

/// Every number up to 2^53 has a double of its own.
pub proof fn small_numbers_are_whole(n: nat)
    ensures
        n <= 0x20_0000_0000_0000 ==> whole(n) == n,
{
    assert(two_to(0) == 1);
    if n < 0x20_0000_0000_0000 {
        assert(n / 1 == n && n % 1 == 0);
        assert(nearest_even(n, 1) == n);
        assert(n * 1 == n);
    } else if n == 0x20_0000_0000_0000 {
        assert(excess(0x10_0000_0000_0000) == 0);
        assert(excess(n) == 1);
        assert(two_to(1) == 2);
        assert(n / 2 == 0x10_0000_0000_0000 && n % 2 == 0);
        assert(nearest_even(n, 2) == 0x10_0000_0000_0000);
        let q = nearest_even(n, 2);
        assert(q * 2 == 0x20_0000_0000_0000) by (nonlinear_arith)
            requires
                q == 0x10_0000_0000_0000,
        ;
    }
}

proof fn whole_is_positive(n: nat)
    ensures
        n == 0 <==> whole(n) == 0,
{
    small_numbers_are_whole(n);
    if n >= 0x20_0000_0000_0000 {
        let t = two_to(excess(n));
        two_to_grows(0, excess(n));
        excess_fills(n);
        nearest_even_bound(n, t);
        assert(nearest_even(n, t) * t > 0) by (nonlinear_arith)
            requires
                nearest_even(n, t) > 0,
                t > 0,
        ;
    }
}

/// Cutting the excess bits leaves 53 of them.
proof fn excess_fills(p: nat)
    requires
        p >= 0x10_0000_0000_0000,
    ensures
        p / two_to(excess(p)) >= 0x10_0000_0000_0000,
    decreases p,
{
    assert(two_to(0) == 1);
    if p >= 0x20_0000_0000_0000 {
        excess_fills(p / 2);
        let u = two_to(excess(p / 2));
        two_to_grows(0, excess(p / 2));
        vstd::arithmetic::div_mod::lemma_div_denominator(p as int, 2, u as int);
        assert(p / two_to(excess(p)) == (p / 2) / u);
    } else {
        assert(p / 1 == p);
    }
}

/// The value of the double nearest to a whole number.
fn nearest_whole(n: u64) -> (r: u128)
    ensures
        r == whole(n as nat),
        r <= 0x1_0000_0000_0000_0000,
        n <= 0x20_0000_0000_0000 ==> r == n,
        n == 0 <==> r == 0,
{
    let mut rest: u64 = n;
    let mut s: u32 = 0;
    proof {
        two_to_64();
        small_numbers_are_whole(n as nat);
        whole_is_positive(n as nat);
        assert(two_to(0) == 1);
        assert(two_to(11) == 2048) by {
            reveal_with_fuel(two_to, 12);
        }
        excess_bound(n as nat, 11);
    }
    while rest >= 0x20_0000_0000_0000
        invariant
            s + excess(rest as nat) == excess(n as nat),
            excess(n as nat) <= 11,
        decreases rest,
    {
        rest = rest / 2;
        s = s + 1;
    }
    let t: u128 = power_of_two(s);
    let q: u128 = round_nearest_even(n as u128, t);
    proof {
        product_fits(n as nat);
        two_to_grows(s as nat, 11);
        assert(q * t <= 0x20_0000_0000_0000 * 2048) by (nonlinear_arith)
            requires
                q <= 0x20_0000_0000_0000,
                t <= 2048,
        ;
    }
    q * t
}

proof fn small_quotient(a: nat, b: nat)
    requires
        a < b,
    ensures
        a / b == 0,
{
    assert(a / b == 0) by (nonlinear_arith)
        requires
            0 <= a < b,
    ;
}

/// Rounding off the excess bits leaves at most 2^53.
proof fn product_fits(p: nat)
    ensures
        p / two_to(excess(p)) < 0x20_0000_0000_0000,
        nearest_even(p, two_to(excess(p))) <= 0x20_0000_0000_0000,
    decreases p,
{
    let t = two_to(excess(p));
    two_to_grows(0, excess(p));
    if p >= 0x20_0000_0000_0000 {
        product_fits(p / 2);
        let u = two_to(excess(p / 2));
        two_to_grows(0, excess(p / 2));
        vstd::arithmetic::div_mod::lemma_div_denominator(p as int, 2, u as int);
        assert(p / t == (p / 2) / u);
    } else {
        assert(p / 1 == p);
    }
    nearest_even_bound(p, t);
}

/// How many doublings bring `i` to at least `2^52 * d`.
pub open spec fn lift(i: nat, d: nat) -> nat
    decreases
            (if i < 0x10_0000_0000_0000 * d {
                0x10_0000_0000_0000 * d - i
            } else {
                0
            }),
{
    if i == 0 || i >= 0x10_0000_0000_0000 * d {
        0
    } else {
        1 + lift(2 * i, d)
    }
}

/// The magnitude of the double nearest to `i / d` (ties to even), for
/// `i <= d`: the quotient is scaled up to 53 significant bits and rounded.
pub open spec fn fraction_mag(i: nat, d: nat) -> nat {
    if i == 0 {
        0
    } else {
        ((1074 - lift(i, d)) * 0x10_0000_0000_0000 + nearest_even(
            i * two_to(lift(i, d)),
            d,
        )) as nat
    }
}

/// Rounding does not pass an integer bound.
proof fn nearest_even_within(p: nat, d: nat, bound: nat)
    requires
        d > 0,
        p <= bound * d,
    ensures
        nearest_even(p, d) <= bound,
{
    vstd::arithmetic::div_mod::lemma_fundamental_div_mod(p as int, d as int);
    let q = p / d;
    let r = p % d;
    assert(q <= bound && (r > 0 ==> q < bound)) by (nonlinear_arith)
        requires
            d > 0,
            p <= bound * d,
            p == d * q + r,
            r >= 0,
    ;
}

proof fn nearest_even_exact(m: nat, d: nat)
    requires
        d > 0,
    ensures
        nearest_even(m * d, d) == m,
{
    vstd::arithmetic::div_mod::lemma_div_multiples_vanish(m as int, d as int);
    vstd::arithmetic::div_mod::lemma_mod_multiples_basic(m as int, d as int);
    assert(d * m == m * d) by (nonlinear_arith);
}

/// The magnitude of 1.
pub const ONE: u64 = 0x3FF0_0000_0000_0000;

/// The doublings end between `2^52 * d` and `2^53 * d`.
proof fn lifted(i: nat, d: nat)
    requires
        0 < i < 0x20_0000_0000_0000 * d,
    ensures
        0x10_0000_0000_0000 * d <= i * two_to(lift(i, d)) < 0x20_0000_0000_0000 * d,
    decreases lift(i, d),
{
    if i < 0x10_0000_0000_0000 * d {
        lifted(2 * i, d);
        let t = two_to(lift(2 * i, d));
        assert(i * (2 * t) == (2 * i) * t) by (nonlinear_arith);
    } else {
        assert(i * 1 == i);
    }
}

/// A number of at most 1 is rounded to at most 1.
pub proof fn fractions_are_at_most_one(i: nat, d: nat)
    requires
        i <= d <= u32::MAX,
        0 < d,
    ensures
        fraction_mag(i, d) <= ONE,
        i > 0 ==> lift(i, d) < 85,
{
    if i > 0 {
        let k = lift(i, d);
        let x = i * two_to(k);
        lifted(i, d);
        two_to_125();
        assert(two_to(32) == 0x1_0000_0000) by {
            reveal_with_fuel(two_to, 33);
        }
        two_to_splits(53, 32);
        assert(two_to(k) <= x) by (nonlinear_arith)
            requires
                x == i * two_to(k),
                i > 0,
        ;
        if k >= 85 {
            two_to_grows(85, k);
            assert(false);
        }
        nearest_even_within(x, d, 0x20_0000_0000_0000);
        assert(two_to(53) == 2 * two_to(52));
        if k < 52 {
            two_to_grows((k + 1) as nat, 52);
            assert(i * two_to(k) < d * 0x10_0000_0000_0000) by (nonlinear_arith)
                requires
                    0 < i <= d,
                    two_to(k) < 0x10_0000_0000_0000,
            ;
            assert(false);
        }
        if k == 52 {
            assert(i == d) by (nonlinear_arith)
                requires
                    i <= d,
                    i * 0x10_0000_0000_0000 >= 0x10_0000_0000_0000 * d,
            ;
            nearest_even_exact(0x10_0000_0000_0000, d);
        }
    }
}

impl Double {
    /// The double nearest to `i / d`.
    pub fn fraction(i: u32, d: u32) -> (r: Double)
        requires
            i <= d,
            0 < d,
        ensures
            r.bits == fraction_mag(i as nat, d as nat),
            r.bits <= ONE,
    {
        if i == 0 {
            return Double { bits: 0 };
        }
        let goal: u128 = 0x10_0000_0000_0000 * (d as u128);
        let mut x: u128 = i as u128;
        let mut k: u64 = 0;
        proof {
            assert(two_to(0) == 1);
            assert(i as int * 1 == i);
            fractions_are_at_most_one(i as nat, d as nat);
        }
        while x < goal
            invariant
                0 < i <= d,
                goal == 0x10_0000_0000_0000 * (d as u128),
                0 < x < 2 * goal,
                x == i as nat * two_to(k as nat),
                k + lift(x as nat, d as nat) == lift(i as nat, d as nat),
                lift(i as nat, d as nat) < 85,
            decreases
                    (if x < goal {
                        goal - x
                    } else {
                        0
                    }),
        {
            proof {
                assert(i as nat * (2 * two_to(k as nat)) == 2 * (i as nat * two_to(k as nat)))
                    by (nonlinear_arith);
            }
            x = 2 * x;
            k = k + 1;
        }
        proof {
            nearest_even_within(x as nat, d as nat, 0x20_0000_0000_0000);
        }
        let q: u128 = round_nearest_even(x, d as u128);
        Double { bits: (1074 - k) * 0x10_0000_0000_0000 + q as u64 }
    }
}

proof fn excess_bound(p: nat, j: nat)
    requires
        p < 0x20_0000_0000_0000 * two_to(j),
    ensures
        excess(p) <= j,
    decreases j,
{
    if p >= 0x20_0000_0000_0000 && j > 0 {
        excess_bound(p / 2, (j - 1) as nat);
    }
}

/// A number from 0 to 1 times `n`, cut to an integer, is at most `n`.
pub proof fn a_fraction_of_n_is_within_n(t: Double, n: nat)
    requires
        t.bits <= ONE,
        n <= u32::MAX,
    ensures
        t.times_truncated(n) <= n,
{
    let m = t.significand();
    let k = (-t.scale()) as nat;
    let p = m * n;
    let s = excess(p);
    two_to_125();
    assert(two_to(52) == 0x10_0000_0000_0000) by {
        assert(two_to(53) == 2 * two_to(52));
    }
    assert(m <= two_to(k)) by {
        if t.bits == ONE {
            assert(m == 0x10_0000_0000_0000 && k == 52);
        } else {
            assert(k >= 53);
            two_to_grows(53, k);
        }
    }
    assert(p <= n * two_to(k)) by (nonlinear_arith)
        requires
            p == m * n,
            m <= two_to(k),
    ;
    two_to_grows(0, s);
    let j = (-t.product_scale(n)) as nat;
    assert(s <= 32) by {
        assert(two_to(32) == 0x1_0000_0000) by {
            reveal_with_fuel(two_to, 33);
        }
        assert(m * n < 0x20_0000_0000_0000 * 0x1_0000_0000) by (nonlinear_arith)
            requires
                m < 0x20_0000_0000_0000,
                n < 0x1_0000_0000,
        ;
        excess_bound(p, 32);
    }
    assert(j + s == k);
    two_to_splits(j, s);
    assert(n * (two_to(j) * two_to(s)) == (n * two_to(j)) * two_to(s)) by (nonlinear_arith);
    nearest_even_within(p, two_to(s), n * two_to(j));
    two_to_grows(0, j);
    vstd::arithmetic::div_mod::lemma_div_is_ordered(
        t.product_significand(n) as int,
        (n * two_to(j)) as int,
        two_to(j) as int,
    );
    vstd::arithmetic::div_mod::lemma_div_by_multiple(n as int, two_to(j) as int);
}

/// The order is that of a total order on numbers that are not NaN, and false
/// wherever a NaN takes part.
pub proof fn order_of_numbers(a: Double, b: Double, c: Double)
    ensures
        a.below(b) ==> !b.below(a),
        a.below(b) && b.below(c) ==> a.below(c),
        !a.nan() && !b.nan() ==> (a.at_most(b) <==> !b.below(a)),
        a.nan() || b.nan() ==> !a.below(b) && !a.at_most(b),
        a.finite() ==> !a.nan(),
{
}

proof fn doubling_fills(n: nat)
    requires
        0 < n < 0x20_0000_0000_0000,
    ensures
        lack(n) <= 52,
        0x10_0000_0000_0000 <= n * two_to(lack(n)) < 0x20_0000_0000_0000,
    decreases
            (if n < 0x10_0000_0000_0000 {
                0x10_0000_0000_0000 - n
            } else {
                0
            }),
{
    if n < 0x10_0000_0000_0000 {
        doubling_fills(2 * n);
        let t = two_to(lack(2 * n));
        assert(two_to(lack(n)) == 2 * t);
        assert((2 * n) * t == n * (2 * t)) by (nonlinear_arith);
    } else {
        assert(two_to(0) == 1);
        assert(n * 1 == n);
    }
    if lack(n) > 52 {
        let t = two_to(lack(n));
        two_to_125();
        two_to_grows(53, lack(n));
        assert(n * t >= t) by (nonlinear_arith)
            requires
                n > 0,
                t >= 0,
        ;
    }
}

/// A whole number below 2^53 is read exactly: its significand, scaled back,
/// is the number itself.
pub proof fn small_whole_numbers_are_exact(n: nat)
    requires
        0 < n < 0x20_0000_0000_0000,
    ensures
        0 <= whole_bits(n) < INFINITE,
        ({
            let d = Double { bits: whole_bits(n) as u64 };
            &&& d.finite()
            &&& d.rank() == whole_bits(n)
            &&& d.significand() == n * two_to(lack(n))
            &&& d.scale() == -lack(n)
        }),
{
    doubling_fills(n);
    let m = n * two_to(lack(n));
    assert(excess(n) == 0);
    assert(two_to(0) == 1);
    assert(nearest_even(m, 1) == m) by {
        assert(m / 1 == m);
        assert(m % 1 == 0);
    }
    assert(whole_bits(n) == (1074 - lack(n)) * 0x10_0000_0000_0000 + m);
}

/// The double nearest to a 64-bit whole number is positive and at most 2^64.
pub proof fn whole_numbers_fit(n: nat)
    requires
        n < 0x1_0000_0000_0000_0000,
    ensures
        0 <= whole_bits(n) <= 0x43F0_0000_0000_0000,
{
    if n >= 0x20_0000_0000_0000 {
        assert(two_to(11) == 2048) by {
            reveal_with_fuel(two_to, 12);
        }
        excess_bound(n, 11);
        product_fits(n);
        assert(two_to(0) == 1);
        assert(n * 1 == n);
    } else if n > 0 {
        small_whole_numbers_are_exact(n);
        doubling_fills(n);
        assert(two_to(0) == 1);
        assert(nearest_even(n * two_to(lack(n)), 1) <= 0x20_0000_0000_0000) by {
            nearest_even_within(n * two_to(lack(n)), 1, 0x20_0000_0000_0000);
        }
    }
}

/// Doubling is exact: of a finite number whose double is finite, either the
/// significand doubles or the scale goes up by one, and the sign stays.
pub proof fn doubling_is_exact(x: Double)
    requires
        x.finite(),
        x.twice().finite(),
    ensures
        x.twice().bits >= SIGN <==> x.bits >= SIGN,
        ({
            ||| x.twice().significand() == 2 * x.significand() && x.twice().scale() == x.scale()
            ||| x.twice().significand() == x.significand() && x.twice().scale() == x.scale() + 1
        }),
{
}

/// The lesser and the greater of two numbers are among the two and bound
/// them; a NaN gives way to a number.
pub proof fn lesser_and_greater_bound_both(a: Double, b: Double)
    ensures
        a.lesser(b) == a || a.lesser(b) == b,
        a.greater(b) == a || a.greater(b) == b,
        !a.nan() && !b.nan() ==> a.lesser(b).at_most(a) && a.lesser(b).at_most(b) && a.at_most(
            a.greater(b),
        ) && b.at_most(a.greater(b)),
        a.nan() ==> a.lesser(b) == b && a.greater(b) == b,
        b.nan() && !a.nan() ==> a.lesser(b) == a && a.greater(b) == a,
{
}

/// A clamped number lies within the bounds; one that already did is not
/// moved, and one that did not comes to the nearer bound.
pub proof fn a_clamped_number_is_within(x: Double, lo: Double, hi: Double)
    requires
        lo.at_most(hi),
        !x.nan(),
    ensures
        lo.at_most(x.clamped(lo, hi)) && x.clamped(lo, hi).at_most(hi),
        lo.at_most(x) && x.at_most(hi) ==> x.clamped(lo, hi) == x,
        x.below(lo) ==> x.clamped(lo, hi) == lo,
        hi.below(x) ==> x.clamped(lo, hi) == hi,
{
}

/// A clamped single lies within the bounds; one that already did is not
/// moved, and one that did not comes to the nearer bound.
pub proof fn a_clamped_single_is_within(x: Single, lo: Single, hi: Single)
    requires
        lo.at_most(hi),
        !x.nan(),
    ensures
        lo.at_most(x.clamped(lo, hi)) && x.clamped(lo, hi).at_most(hi),
        lo.at_most(x) && x.at_most(hi) ==> x.clamped(lo, hi) == x,
        x.below(lo) ==> x.clamped(lo, hi) == lo,
        hi.below(x) ==> x.clamped(lo, hi) == hi,
{
}

/// Every pattern is one of NaN, infinite and finite; the sign decides neither.
/// A negative number is below zero, a positive one above, and both zeros are
/// equal in order.
pub proof fn patterns_are_classified(x: Double, y: Double)
    ensures
        x.bits == 0x7FF0_0000_0000_0000 || x.bits == 0xFFF0_0000_0000_0000 <==> !x.nan()
            && !x.finite(),
        0x7FF0_0000_0000_0000 < x.bits < 0x8000_0000_0000_0000 || x.bits > 0xFFF0_0000_0000_0000
            <==> x.nan(),
        0x8000_0000_0000_0000 < x.bits <= 0xFFF0_0000_0000_0000 ==> x.below((Double { bits: 0 })),
        0 < x.bits <= 0x7FF0_0000_0000_0000 ==> (Double { bits: 0 }).below(x),
        (Double { bits: 0 }).at_most((Double { bits: 0x8000_0000_0000_0000 })),
        (Double { bits: 0x8000_0000_0000_0000 }).at_most((Double { bits: 0 })),
        x.bits < y.bits <= 0x7FF0_0000_0000_0000 ==> x.below(y),
        0x8000_0000_0000_0000 <= x.bits < y.bits <= 0xFFF0_0000_0000_0000 ==> y.below(x),
{
}

/// The same of singles.
pub proof fn single_patterns_are_classified(x: Single, y: Single)
    ensures
        x.bits == 0x7F80_0000 || x.bits == 0xFF80_0000 <==> !x.nan() && !x.finite(),
        0x7F80_0000 < x.bits < 0x8000_0000 || x.bits > 0xFF80_0000 <==> x.nan(),
        0x8000_0000 < x.bits <= 0xFF80_0000 ==> x.below((Single { bits: 0 })),
        0 < x.bits <= 0x7F80_0000 ==> (Single { bits: 0 }).below(x),
        (Single { bits: 0 }).at_most((Single { bits: 0x8000_0000 })),
        (Single { bits: 0x8000_0000 }).at_most((Single { bits: 0 })),
        x.bits < y.bits <= 0x7F80_0000 ==> x.below(y),
        0x8000_0000 <= x.bits < y.bits <= 0xFF80_0000 ==> y.below(x),
{
}

/// A rounded quotient is within a half of the quotient, and even where it is
/// a half away.
pub proof fn rounding_is_to_the_nearest(p: nat, d: nat)
    requires
        d > 0,
    ensures
        2 * (nearest_even(p, d) * d - p) <= d,
        2 * (p - nearest_even(p, d) * d) <= d,
        2 * (nearest_even(p, d) * d - p) == d || 2 * (p - nearest_even(p, d) * d) == d
            ==> nearest_even(p, d) % 2 == 0,
{
    vstd::arithmetic::div_mod::lemma_fundamental_div_mod(p as int, d as int);
    let q = p / d;
    let r = p % d;
    assert(q * d == d * q) by (nonlinear_arith);
    assert((q + 1) * d == d * q + d) by (nonlinear_arith);
}

/// A whole number is read as one of 53 significant bits that lies within half
/// a unit of its last place.
pub proof fn whole_numbers_are_read_nearest(n: nat)
    ensures
        2 * (whole(n) - n) <= two_to(excess(n)),
        2 * (n - whole(n)) <= two_to(excess(n)),
        n < 0x20_0000_0000_0000 ==> whole(n) == n,
{
    two_to_grows(0, excess(n));
    rounding_is_to_the_nearest(n, two_to(excess(n)));
    if n < 0x20_0000_0000_0000 {
        assert(two_to(0) == 1);
        nearest_even_exact(n, 1);
    }
}

/// A product cut to an integer is the greatest one not above it, a product
/// rounded up the least one not below it, and a rounded product is within a
/// half of it, halves going up.
pub proof fn products_are_cut_and_rounded(x: Double, n: nat)
    ensures
        x.product_scale(n) >= 0 ==> x.times_truncated(n) == x.product_significand(n) * two_to(
            x.product_scale(n) as nat,
        ) && x.times_rounded(n) == x.times_truncated(n) && x.times_ceiled(n) == x.times_truncated(
            n,
        ),
        x.product_scale(n) < 0 ==> {
            let s = x.product_significand(n);
            let unit = two_to((-x.product_scale(n)) as nat);
            &&& x.times_truncated(n) * unit <= s < (x.times_truncated(n) + 1) * unit
            &&& (x.times_ceiled(n) - 1) * unit < s <= x.times_ceiled(n) * unit
            &&& 2 * (x.times_rounded(n) * unit - s) <= unit
            &&& 2 * (s - x.times_rounded(n) * unit) < unit
        },
{
    if x.product_scale(n) < 0 {
        let s = x.product_significand(n);
        let k = (-x.product_scale(n)) as nat;
        let unit = two_to(k);
        let half = two_to((k - 1) as nat);
        two_to_grows(0, k);
        assert(two_to(0) == 1);
        assert(unit == 2 * half);
        bracket(s as int, unit as int);
        bracket((s + half) as int, unit as int);
        bracket(s + unit - 1, unit as int);
        let c = (s + unit - 1) / (unit as int);
        assert(c >= 0) by (nonlinear_arith)
            requires
                s + unit - 1 < (c + 1) * unit,
                s >= 0,
                unit > 0,
        ;
        assert((c + 1) * unit == (c - 1) * unit + 2 * unit) by (nonlinear_arith);
        assert((c - 1) * unit == c * unit - unit) by (nonlinear_arith);
        let r = ((s + half) / unit) as int;
        assert((r + 1) * unit == r * unit + unit) by (nonlinear_arith);
    }
}

proof fn bracket(a: int, d: int)
    requires
        d > 0,
    ensures
        (a / d) * d <= a < (a / d + 1) * d,
{
    vstd::arithmetic::div_mod::lemma_fundamental_div_mod(a, d);
    let q = a / d;
    assert(q * d == d * q) by (nonlinear_arith);
    assert((q + 1) * d == d * q + d) by (nonlinear_arith);
}

/// A cast keeps a product that fits; it never wraps.
pub proof fn a_cast_saturates(x: Double, n: nat, v: nat)
    ensures
        x.cast(n, v) <= u64::MAX,
        x.nan() || x.bits >= SIGN || n == 0 ==> x.cast(n, v) == 0,
        x.finite() && x.bits < SIGN && n > 0 && v <= u64::MAX ==> x.cast(n, v) == v,
        x.finite() && x.bits < SIGN && n > 0 && v > u64::MAX ==> x.cast(n, v) == u64::MAX,
        x.bits == INFINITE && n > 0 ==> x.cast(n, v) == u64::MAX,
{
}

/// A narrowed number keeps its sign; a NaN stays one, an infinite number stays
/// infinite, zero stays zero. Within the range of singles the fraction bits
/// that a single lacks are rounded off.
pub proof fn narrowing_rounds_off_the_last_bits(x: Double)
    ensures
        x.nan() <==> x.narrowed().nan(),
        x.narrowed().bits >= SINGLE_SIGN <==> x.bits >= SIGN,
        x.bits == INFINITE ==> x.narrowed().bits == SINGLE_INFINITE,
        x.bits == 0 ==> x.narrowed().bits == 0,
        x.bits >= REBIAS + 0x10_0000_0000_0000 && x.bits < INFINITE && x.narrowed().finite() ==> {
            &&& 2 * (x.narrowed().bits * 0x2000_0000 - (x.bits - REBIAS)) <= 0x2000_0000
            &&& 2 * ((x.bits - REBIAS) - x.narrowed().bits * 0x2000_0000) <= 0x2000_0000
        },
{
    let m = x.mag();
    let e = m / 0x10_0000_0000_0000;
    if m <= INFINITE {
        if m >= REBIAS + 0x10_0000_0000_0000 {
            rounding_is_to_the_nearest((m - REBIAS) as nat, 0x2000_0000);
        } else if 897 - e <= 25 {
            let p = (m % 0x10_0000_0000_0000 + 0x10_0000_0000_0000) as nat;
            let k = (29 + 897 - e) as nat;
            two_to_grows(29, k);
            assert(two_to(29) == 0x2000_0000) by {
                reveal_with_fuel(two_to, 30);
            }
            assert(p <= 0x100_0000 * two_to(k)) by (nonlinear_arith)
                requires
                    p < 0x20_0000_0000_0000,
                    two_to(k) >= 0x2000_0000,
            ;
            nearest_even_within(p, two_to(k), 0x100_0000);
        }
    }
}

} // verus!
