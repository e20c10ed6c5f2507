//! Quantities of time.
//!
//! Configuration is given in seconds as a binary64 number, here by its bit pattern.  Clocks and
//! intervals are whole nanoseconds.
use vstd::arithmetic::div_mod::{lemma_fundamental_div_mod, lemma_fundamental_div_mod_converse};
use vstd::arithmetic::power2::{
    lemma2_to64, lemma2_to64_rest, lemma_pow2_adds, lemma_pow2_pos, lemma_pow2_strictly_increases,
    lemma_pow2_unfold, pow2,
};
use vstd::prelude::*;

verus! {

/// A length of time in whole nanoseconds.
#[derive(Debug, Clone, Copy, PartialEq, Eq, Structural)]
pub struct Duration {
    pub nanos: u128,
}

/// A point in time: nanoseconds since the epoch.
#[derive(Debug, Clone, Copy, PartialEq, Eq, Structural)]
pub struct UnixTime {
    pub nanos: u128,
}

/// A number of seconds: the binary64 number that has these bits.
#[derive(Debug, Clone, Copy, PartialEq, Eq, Structural)]
pub struct Seconds {
    pub bits: u64,
}

pub const NANOS_PER_SECOND: u128 = 1_000_000_000;

/// Weight of the sign bit.
pub const SIGN_WEIGHT: u64 = 0x8000_0000_0000_0000;

/// Weight of the lowest exponent bit.
pub const EXPONENT_WEIGHT: u64 = 0x0010_0000_0000_0000;

/// Magnitude bits of infinity.
pub const INFINITE: u64 = 0x7ff0_0000_0000_0000;

impl Duration {
    pub fn zero() -> (span: Self)
        ensures
            span.nanos == 0,
    {
        Duration { nanos: 0 }
    }

    pub fn from_secs(seconds: u64) -> (span: Self)
        ensures
            span.nanos == seconds * NANOS_PER_SECOND,
    {
        Duration { nanos: seconds as u128 * NANOS_PER_SECOND }
    }

    pub fn from_millis(millis: u64) -> (span: Self)
        ensures
            span.nanos == millis * 1_000_000,
    {
        Duration { nanos: millis as u128 * 1_000_000 }
    }

    pub fn is_zero(&self) -> (zero: bool)
        ensures
            zero == (self.nanos == 0),
    {
        self.nanos == 0
    }
}

impl UnixTime {
    pub fn from_secs(seconds: u64) -> (time: Self)
        ensures
            time.nanos == seconds * NANOS_PER_SECOND,
    {
        UnixTime { nanos: seconds as u128 * NANOS_PER_SECOND }
    }

    /// `span` has passed since `start`.
    pub open spec fn reached(self, start: UnixTime, span: Duration) -> bool {
        self.nanos >= start.nanos + span.nanos
    }

    pub fn has_reached(&self, start: UnixTime, span: Duration) -> (reached: bool)
        ensures
            reached == self.reached(start, span),
    {
        self.nanos >= start.nanos && self.nanos - start.nanos >= span.nanos
    }
}

/// Value of magnitude bits, in units of the smallest positive binary64 number.
pub open spec fn magnitude_units(magnitude: nat) -> nat {
    let exponent = magnitude / (EXPONENT_WEIGHT as nat);
    let fraction = magnitude % (EXPONENT_WEIGHT as nat);
    if exponent == 0 {
        fraction
    } else {
        (EXPONENT_WEIGHT as nat + fraction) * pow2((exponent - 1) as nat)
    }
}

/// Number of units in one second.
pub open spec fn units_per_second() -> nat {
    pow2(1074)
}

/// The quotient, rounded to the nearest whole number and from halfway to the even one.
pub open spec fn round_half_even(numerator: nat, denominator: nat) -> nat {
    let quotient = numerator / denominator;
    let remainder = numerator % denominator;
    if 2 * remainder > denominator || (2 * remainder == denominator && quotient % 2 == 1) {
        quotient + 1
    } else {
        quotient
    }
}

impl Seconds {
    pub open spec fn negative(self) -> bool {
        self.bits >= SIGN_WEIGHT
    }

    pub open spec fn magnitude(self) -> nat {
        if self.negative() {
            (self.bits - SIGN_WEIGHT) as nat
        } else {
            self.bits as nat
        }
    }

    pub open spec fn not_a_number(self) -> bool {
        self.magnitude() > INFINITE
    }

    pub open spec fn finite(self) -> bool {
        self.magnitude() < INFINITE
    }

    /// Position of the number among all binary64 numbers.  Both zeros have position zero.
    pub open spec fn rank(self) -> int {
        if self.negative() {
            -(self.magnitude() as int)
        } else {
            self.magnitude() as int
        }
    }

    /// Value of a finite number, in units of the smallest positive binary64 number.
    pub open spec fn units(self) -> int {
        if self.negative() {
            -(magnitude_units(self.magnitude()) as int)
        } else {
            magnitude_units(self.magnitude()) as int
        }
    }

    pub open spec fn less(self, other: Seconds) -> bool {
        !self.not_a_number() && !other.not_a_number() && self.rank() < other.rank()
    }

    /// Numerically equal.  No number equals what is not a number.
    pub open spec fn same_number(self, other: Seconds) -> bool {
        !self.not_a_number() && !other.not_a_number() && self.rank() == other.rank()
    }

    pub open spec fn positive(self) -> bool {
        !self.not_a_number() && self.rank() > 0
    }

    /// A positive finite number.
    pub open spec fn usable(self) -> bool {
        self.finite() && self.positive()
    }

    fn magnitude_bits(&self) -> (magnitude: u64)
        ensures
            magnitude == self.magnitude(),
    {
        if self.bits >= SIGN_WEIGHT {
            self.bits - SIGN_WEIGHT
        } else {
            self.bits
        }
    }

    pub fn is_finite(&self) -> (finite: bool)
        ensures
            finite == self.finite(),
    {
        self.magnitude_bits() < INFINITE
    }

    pub fn is_nan(&self) -> (nan: bool)
        ensures
            nan == self.not_a_number(),
    {
        self.magnitude_bits() > INFINITE
    }

    /// Greater than zero.
    pub fn is_positive(&self) -> (positive: bool)
        ensures
            positive == self.positive(),
    {
        !self.is_nan() && self.bits < SIGN_WEIGHT && self.bits > 0
    }

    /// The ordering `<` of numbers.
    pub fn is_less(&self, other: &Seconds) -> (less: bool)
        ensures
            less == self.less(*other),
    {
        if self.is_nan() || other.is_nan() {
            return false;
        }
        let mine: u64 = self.magnitude_bits();
        let theirs: u64 = other.magnitude_bits();
        if self.bits >= SIGN_WEIGHT {
            if other.bits >= SIGN_WEIGHT {
                mine > theirs
            } else {
                mine > 0 || theirs > 0
            }
        } else {
            other.bits < SIGN_WEIGHT && mine < theirs
        }
    }

    pub fn is_same_number(&self, other: &Seconds) -> (same: bool)
        ensures
            same == self.same_number(*other),
    {
        if self.is_nan() || other.is_nan() {
            return false;
        }
        if self.bits == other.bits {
            return true;
        }
        self.magnitude_bits() == 0 && other.magnitude_bits() == 0
    }
}

proof fn lemma_units_step(magnitude: nat)
    requires
        magnitude + 1 < INFINITE,
    ensures
        magnitude_units(magnitude) < magnitude_units(magnitude + 1),
{
    let weight = EXPONENT_WEIGHT as nat;
    let exponent = magnitude / weight;
    let fraction = magnitude % weight;
    if fraction + 1 < weight {
        assert((magnitude + 1) / weight == exponent && (magnitude + 1) % weight == fraction + 1)
            by (nonlinear_arith)
            requires
                weight == 0x0010_0000_0000_0000nat,
                exponent == magnitude / weight,
                fraction == magnitude % weight,
                fraction + 1 < weight,
        ;
        if exponent > 0 {
            let scale = pow2((exponent - 1) as nat);
            lemma_pow2_pos((exponent - 1) as nat);
            assert((weight + fraction) * scale < (weight + (fraction + 1)) * scale)
                by (nonlinear_arith)
                requires
                    scale > 0,
            ;
            assert(magnitude_units(magnitude) == (weight + fraction) * scale);
            assert(magnitude_units(magnitude + 1) == (weight + (fraction + 1)) * scale);
        }
    } else {
        assert((magnitude + 1) / weight == exponent + 1 && (magnitude + 1) % weight == 0)
            by (nonlinear_arith)
            requires
                weight == 0x0010_0000_0000_0000nat,
                exponent == magnitude / weight,
                fraction == magnitude % weight,
                fraction + 1 == weight,
        ;
        if exponent > 0 {
            let scale = pow2((exponent - 1) as nat);
            lemma_pow2_pos((exponent - 1) as nat);
            lemma_pow2_unfold(exponent);
            assert((weight + fraction) * scale < (weight + 0) * (2 * scale)) by (nonlinear_arith)
                requires
                    scale > 0,
                    fraction + 1 == weight,
            ;
            assert(magnitude_units(magnitude) == (weight + fraction) * scale);
            assert(((exponent + 1) - 1) as nat == exponent);
            assert(magnitude_units(magnitude + 1) == (weight + 0) * pow2(exponent));
        } else {
            assert(pow2(0) == 1) by {
                lemma2_to64();
            }
        }
    }
}

proof fn lemma_units_increase(smaller: nat, larger: nat)
    requires
        smaller < larger < INFINITE,
    ensures
        magnitude_units(smaller) < magnitude_units(larger),
    decreases larger - smaller,
{
    lemma_units_step((larger - 1) as nat);
    if smaller < larger - 1 {
        lemma_units_increase(smaller, (larger - 1) as nat);
    }
}

/// The ordering of finite numbers is the ordering of their values.
pub proof fn law_order_is_numeric(left: Seconds, right: Seconds)
    requires
        left.finite(),
        right.finite(),
    ensures
        left.less(right) <==> left.units() < right.units(),
        left.same_number(right) <==> left.units() == right.units(),
{
    let a = left.magnitude();
    let b = right.magnitude();
    if a < b {
        lemma_units_increase(a, b);
    }
    if b < a {
        lemma_units_increase(b, a);
    }
    assert(magnitude_units(0) == 0);
    if 0 < a {
        lemma_units_increase(0, a);
    }
    if 0 < b {
        lemma_units_increase(0, b);
    }
}

/// The greatest finite magnitude.
pub open spec fn greatest_units() -> nat {
    magnitude_units((INFINITE - 1) as nat)
}

/// No finite number is above the greatest one.
pub proof fn lemma_units_bounded(number: Seconds)
    requires
        number.finite(),
    ensures
        number.units() <= greatest_units(),
{
    if number.magnitude() < INFINITE - 1 {
        lemma_units_increase(number.magnitude(), (INFINITE - 1) as nat);
    }
}

proof fn lemma_double(magnitude: nat)
    requires
        0 < magnitude < INFINITE,
    ensures
        magnitude < EXPONENT_WEIGHT ==> magnitude_units(2 * magnitude) == 2 * magnitude_units(
            magnitude,
        ),
        EXPONENT_WEIGHT <= magnitude && magnitude + EXPONENT_WEIGHT < INFINITE ==> magnitude_units(
            (magnitude + EXPONENT_WEIGHT) as nat,
        ) == 2 * magnitude_units(magnitude),
        magnitude + EXPONENT_WEIGHT >= INFINITE ==> 2 * magnitude_units(magnitude)
            > greatest_units(),
{
    let weight = EXPONENT_WEIGHT as nat;
    let exponent = magnitude / weight;
    let fraction = magnitude % weight;
    if magnitude < weight {
        assert(pow2(0) == 1) by {
            lemma2_to64();
        }
        assert(magnitude_units(magnitude) == magnitude);
        if 2 * magnitude < weight {
            assert(magnitude_units(2 * magnitude) == 2 * magnitude);
        } else {
            assert((2 * magnitude) / weight == 1);
            assert((2 * magnitude) % weight == 2 * magnitude - weight);
            assert(magnitude_units(2 * magnitude) == (weight + (2 * magnitude - weight)) as nat
                * pow2(0));
        }
    } else {
        let scale = pow2((exponent - 1) as nat);
        lemma_pow2_pos((exponent - 1) as nat);
        lemma_pow2_unfold(exponent);
        assert(magnitude_units(magnitude) == (weight + fraction) * scale);
        let next = magnitude + weight;
        assert(next / weight == exponent + 1);
        assert(next % weight == fraction);
        assert(((exponent + 1) - 1) as nat == exponent);
        assert(magnitude_units(next) == (weight + fraction) * pow2(exponent));
        assert((weight + fraction) * (2 * scale) == 2 * ((weight + fraction) * scale))
            by (nonlinear_arith);
        if next >= INFINITE {
            let top = (INFINITE - 1) as nat;
            assert(top / weight == 2046 && top % weight == weight - 1);
            assert(exponent == 2046);
            assert(magnitude_units(top) == (weight + (weight - 1)) as nat * pow2(2045));
            assert(scale == pow2(2045));
            assert((weight + (weight - 1)) * scale < 2 * ((weight + fraction) * scale))
                by (nonlinear_arith)
                requires
                    scale > 0,
                    weight > 0,
                    fraction >= 0,
            ;
        }
    }
}

impl Seconds {
    /// Twice a positive number, if that is finite.
    pub fn doubled(&self) -> (twice: Option<Seconds>)
        requires
            self.usable(),
        ensures
            match twice {
                Some(number) => number.usable() && number.units() == 2 * self.units(),
                None => 2 * self.units() > greatest_units(),
            },
    {
        proof {
            lemma_double(self.magnitude());
        }
        if self.bits < EXPONENT_WEIGHT {
            Some(Seconds { bits: 2 * self.bits })
        } else if self.bits + EXPONENT_WEIGHT < INFINITE {
            Some(Seconds { bits: self.bits + EXPONENT_WEIGHT })
        } else {
            None
        }
    }

    /// The number is not negative and less than two to the sixty-fourth, so that its whole
    /// seconds fit a 64-bit count.
    pub open spec fn representable(self) -> bool {
        self.finite() && self.rank() >= 0 && self.magnitude() < 1087 * EXPONENT_WEIGHT
    }

    /// The nanoseconds of a representable number, rounded to the nearest and from halfway to the
    /// even one.
    pub open spec fn nanos(self) -> nat {
        round_half_even(
            magnitude_units(self.magnitude()) * (NANOS_PER_SECOND as nat),
            units_per_second(),
        )
    }
}

/// Scaling numerator and denominator alike does not change the rounded quotient.
proof fn lemma_round_scaled(numerator: nat, denominator: nat, scale: nat)
    requires
        denominator > 0,
        scale > 0,
    ensures
        round_half_even(numerator * scale, denominator * scale) == round_half_even(
            numerator,
            denominator,
        ),
{
    let n = numerator as int;
    let d = denominator as int;
    let c = scale as int;
    let q = n / d;
    let r = n % d;
    lemma_fundamental_div_mod(n, d);
    assert(n * c == q * (d * c) + r * c) by (nonlinear_arith)
        requires
            n == d * q + r,
    ;
    assert(0 <= r * c < d * c) by (nonlinear_arith)
        requires
            0 <= r < d,
            c > 0,
    ;
    lemma_fundamental_div_mod_converse(n * c, d * c, q, r * c);
    assert((2 * (r * c) > d * c) == (2 * r > d)) by (nonlinear_arith)
        requires
            c > 0,
    ;
    assert((2 * (r * c) == d * c) == (2 * r == d)) by (nonlinear_arith)
        requires
            c > 0,
    ;
}

fn power_of_two(exponent: u64) -> (power: u128)
    requires
        exponent <= 100,
    ensures
        power == pow2(exponent as nat),
        power <= 0x10000000000000000000000000,
{
    let mut power: u128 = 1;
    let mut i: u64 = 0;
    proof {
        lemma2_to64();
        lemma2_to64_rest();
        lemma_pow2_adds(50, 50);
        assert(pow2(100) == 0x10000000000000000000000000);
    }
    while i < exponent
        invariant
            i <= exponent <= 100,
            power == pow2(i as nat),
            power <= 0x10000000000000000000000000,
            pow2(100) == 0x10000000000000000000000000,
        decreases exponent - i,
    {
        proof {
            lemma_pow2_unfold((i + 1) as nat);
            if i + 1 < 100 {
                lemma_pow2_strictly_increases((i + 1) as nat, 100);
            }
        }
        power = power * 2;
        i = i + 1;
    }
    power
}

impl Seconds {
    /// The number as a length of time: absent when it is negative, not finite, or beyond the
    /// range of a 64-bit count of seconds.
    pub fn to_duration(&self) -> (span: Option<Duration>)
        ensures
            span is Some <==> self.representable(),
            span matches Some(found) ==> found.nanos == self.nanos(),
    {
        let magnitude: u64 = self.magnitude_bits();
        if (self.bits >= SIGN_WEIGHT && magnitude > 0) || magnitude >= 1087 * EXPONENT_WEIGHT {
            return None;
        }
        let exponent: u64 = magnitude / EXPONENT_WEIGHT;
        let fraction: u64 = magnitude % EXPONENT_WEIGHT;
        let digits: u64 = if exponent == 0 {
            fraction
        } else {
            EXPONENT_WEIGHT + fraction
        };
        let scale: u64 = if exponent == 0 {
            0
        } else {
            exponent - 1
        };
        let ghost units = magnitude_units(self.magnitude());
        let ghost factor = pow2(scale as nat);
        proof {
            lemma2_to64();
            lemma_pow2_pos(scale as nat);
            assert(units == digits * factor) by (nonlinear_arith)
                requires
                    exponent == 0 ==> units == digits && factor == 1,
                    exponent > 0 ==> units == digits * factor,
            ;
        }
        let numerator: u128 = digits as u128 * NANOS_PER_SECOND;
        proof {
            assert(units * (NANOS_PER_SECOND as nat) == numerator * factor) by (nonlinear_arith)
                requires
                    units == digits * factor,
                    numerator == digits * NANOS_PER_SECOND,
            ;
        }
        if scale >= 1074 {
            let shift: u64 = scale - 1074;
            let power: u128 = power_of_two(shift);
            proof {
                lemma2_to64();
                if shift < 11 {
                    lemma_pow2_strictly_increases(shift as nat, 11);
                }
                assert(numerator * power <= 0x20000000000000 * 1_000_000_000 * 2048)
                    by (nonlinear_arith)
                    requires
                        numerator <= 0x20000000000000 * 1_000_000_000,
                        power <= 2048,
                ;
                lemma_pow2_adds(shift as nat, 1074);
                lemma_pow2_pos(1074);
                let whole = (numerator * power) as nat;
                assert(numerator * factor == whole * pow2(1074)) by (nonlinear_arith)
                    requires
                        factor == power * pow2(1074),
                        whole == numerator * power,
                ;
                lemma_fundamental_div_mod_converse(
                    (numerator * factor) as int,
                    pow2(1074) as int,
                    whole as int,
                    0,
                );
            }
            return Some(Duration { nanos: numerator * power });
        }
        let depth: u64 = 1074 - scale;
        proof {
            lemma_pow2_adds(depth as nat, scale as nat);
            lemma_pow2_pos(depth as nat);
            lemma_round_scaled(numerator as nat, pow2(depth as nat), factor);
        }
        if depth > 100 {
            proof {
                lemma2_to64_rest();
                lemma_pow2_adds(50, 50);
                lemma_pow2_strictly_increases(100, depth as nat);
                lemma_fundamental_div_mod_converse(
                    numerator as int,
                    pow2(depth as nat) as int,
                    0,
                    numerator as int,
                );
            }
            return Some(Duration { nanos: 0 });
        }
        let divisor: u128 = power_of_two(depth);
        let quotient: u128 = numerator / divisor;
        let remainder: u128 = numerator % divisor;
        if 2 * remainder > divisor || (2 * remainder == divisor && quotient % 2 == 1) {
            proof {
                assert(quotient <= numerator) by (nonlinear_arith)
                    requires
                        quotient == numerator / divisor,
                        divisor > 0,
                ;
            }
            Some(Duration { nanos: quotient + 1 })
        } else {
            Some(Duration { nanos: quotient })
        }
    }
}

/// What the difference of two numbers must reach, in units, to be the machine epsilon or more once
/// it is rounded to a binary64 number: the epsilon is two to the minus fifty-second, and a difference
/// half a last place short of it is rounded up.
pub open spec fn epsilon_units() -> int {
    pow2(1022) - pow2(968)
}

/// The epsilon in steps of two to the nine hundred and sixty-eighth units.
const EPSILON_STEPS: u128 = 0x3f_ffff_ffff_ffff;

/// Magnitude bits of the number one.
const ONE: u64 = 0x3ff0_0000_0000_0000;

impl Seconds {
    /// Less than the other number, by a difference that is below the machine epsilon once it is
    /// rounded.
    pub open spec fn just_below(self, other: Seconds) -> bool {
        self.less(other) && other.units() - self.units() < epsilon_units()
    }

    /// The value in steps of two to the nine hundred and sixty-eighth units, rounded down, and
    /// whether nothing was lost.
    fn coarse(&self) -> (result: (u128, bool))
        requires
            self.magnitude() <= ONE,
        ensures
            result.0 == magnitude_units(self.magnitude()) / pow2(968),
            result.1 == (magnitude_units(self.magnitude()) % pow2(968) == 0),
            result.0 >= 0x20000000000000 ==> result.1,
    {
        let magnitude: u64 = self.magnitude_bits();
        let exponent: u64 = magnitude / EXPONENT_WEIGHT;
        let fraction: u64 = magnitude % EXPONENT_WEIGHT;
        let digits: u64 = if exponent == 0 {
            fraction
        } else {
            EXPONENT_WEIGHT + fraction
        };
        let scale: u64 = if exponent == 0 {
            0
        } else {
            exponent - 1
        };
        let ghost units = magnitude_units(self.magnitude());
        let ghost factor = pow2(scale as nat);
        proof {
            lemma2_to64();
            lemma_pow2_pos(scale as nat);
            lemma_pow2_pos(968);
            assert(units == digits * factor) by (nonlinear_arith)
                requires
                    exponent == 0 ==> units == digits && factor == 1,
                    exponent > 0 ==> units == digits * factor,
            ;
        }
        if scale >= 968 {
            let shift: u64 = scale - 968;
            let power: u128 = power_of_two(shift);
            proof {
                lemma2_to64_rest();
                if shift < 54 {
                    lemma_pow2_strictly_increases(shift as nat, 54);
                }
                assert(digits * power <= 0x20000000000000 * 0x40000000000000) by (nonlinear_arith)
                    requires
                        digits <= 0x20000000000000,
                        power <= 0x40000000000000,
                ;
                lemma_pow2_adds(shift as nat, 968);
                let whole = (digits * power) as int;
                assert(units == whole * pow2(968)) by (nonlinear_arith)
                    requires
                        units == digits * factor,
                        factor == power * pow2(968),
                        whole == digits * power,
                ;
                lemma_fundamental_div_mod_converse(units as int, pow2(968) as int, whole, 0);
            }
            return (digits as u128 * power, true);
        }
        let depth: u64 = 968 - scale;
        proof {
            lemma_pow2_adds(depth as nat, scale as nat);
            lemma_pow2_pos(depth as nat);
        }
        if depth > 100 {
            proof {
                lemma2_to64_rest();
                lemma_pow2_adds(50, 50);
                lemma_pow2_strictly_increases(100, depth as nat);
                lemma_coarse(digits as int, pow2(depth as nat) as int, factor as int, 0, digits as int);
            }
            return (0, digits == 0);
        }
        let divisor: u128 = power_of_two(depth);
        let quotient: u128 = digits as u128 / divisor;
        let remainder: u128 = digits as u128 % divisor;
        proof {
            lemma_fundamental_div_mod(digits as int, divisor as int);
            lemma_coarse(
                digits as int,
                divisor as int,
                factor as int,
                quotient as int,
                remainder as int,
            );
            assert(quotient <= digits) by (nonlinear_arith)
                requires
                    quotient == digits as int / divisor as int,
                    divisor > 0,
                    digits >= 0,
            ;
        }
        (quotient, remainder == 0)
    }

    pub fn is_just_below(&self, other: &Seconds) -> (close: bool)
        requires
            self.usable(),
            other.usable(),
        ensures
            close == self.just_below(*other),
    {
        if !self.is_less(other) {
            return false;
        }
        if other.bits > ONE {
            proof {
                lemma_sparse(self.magnitude(), other.magnitude());
            }
            return false;
        }
        let (mine, mine_exact) = self.coarse();
        let (theirs, _) = other.coarse();
        proof {
            law_order_is_numeric(*self, *other);
            lemma_pow2_pos(968);
            lemma2_to64();
            lemma2_to64_rest();
            lemma_pow2_adds(54, 968);
            lemma_fundamental_div_mod(self.units(), pow2(968) as int);
            lemma_fundamental_div_mod(other.units(), pow2(968) as int);
            lemma_gap(
                pow2(968) as int,
                mine as int,
                self.units() % (pow2(968) as int),
                theirs as int,
                other.units() % (pow2(968) as int),
            );
            assert(epsilon_units() == EPSILON_STEPS * pow2(968)) by (nonlinear_arith)
                requires
                    epsilon_units() == 0x40000000000000 * pow2(968) - pow2(968),
                    EPSILON_STEPS == 0x3f_ffff_ffff_ffff,
            ;
        }
        let gap: u128 = theirs - mine;
        gap < EPSILON_STEPS || (gap == EPSILON_STEPS && !mine_exact)
    }
}

proof fn lemma_coarse(digits: int, divisor: int, factor: int, quotient: int, remainder: int)
    requires
        digits == divisor * quotient + remainder,
        0 <= remainder < divisor,
        factor > 0,
    ensures
        (digits * factor) / (divisor * factor) == quotient,
        ((digits * factor) % (divisor * factor) == 0) == (remainder == 0),
{
    assert(digits * factor == quotient * (divisor * factor) + remainder * factor)
        by (nonlinear_arith)
        requires
            digits == divisor * quotient + remainder,
    ;
    assert(0 <= remainder * factor < divisor * factor) by (nonlinear_arith)
        requires
            0 <= remainder < divisor,
            factor > 0,
    ;
    assert((remainder * factor == 0) == (remainder == 0)) by (nonlinear_arith)
        requires
            factor > 0,
    ;
    lemma_fundamental_div_mod_converse(
        digits * factor,
        divisor * factor,
        quotient,
        remainder * factor,
    );
}

/// The difference of two numbers, each given in whole steps and a rest.
proof fn lemma_gap(step: int, a: int, a_rest: int, b: int, b_rest: int)
    requires
        step > 0,
        0 <= a_rest < step,
        0 <= b_rest < step,
        step * a + a_rest < step * b + b_rest,
    ensures
        a <= b,
        b - a < EPSILON_STEPS ==> (step * b + b_rest) - (step * a + a_rest) < EPSILON_STEPS * step,
        b - a == EPSILON_STEPS ==> ((step * b + b_rest) - (step * a + a_rest) < EPSILON_STEPS * step
            <==> b_rest < a_rest),
        b - a > EPSILON_STEPS ==> (step * b + b_rest) - (step * a + a_rest) >= EPSILON_STEPS * step,
{
    let gap = b - a;
    assert(step * b - step * a == gap * step) by (nonlinear_arith)
        requires
            gap == b - a,
    ;
    if gap < 0 {
        assert(gap * step <= -step) by (nonlinear_arith)
            requires
                gap < 0,
                step > 0,
        ;
    }
    if gap < EPSILON_STEPS {
        assert(gap * step <= EPSILON_STEPS * step - step) by (nonlinear_arith)
            requires
                gap <= EPSILON_STEPS - 1,
                step > 0,
        ;
    }
    if gap > EPSILON_STEPS {
        assert(gap * step >= EPSILON_STEPS * step + step) by (nonlinear_arith)
            requires
                gap >= EPSILON_STEPS + 1,
                step > 0,
        ;
    }
}

/// Above one, two numbers differ by the epsilon at least.
proof fn lemma_sparse(smaller: nat, larger: nat)
    requires
        smaller < larger < INFINITE,
        ONE < larger,
    ensures
        magnitude_units(larger) - magnitude_units(smaller) >= epsilon_units(),
{
    let before = (larger - 1) as nat;
    let weight = EXPONENT_WEIGHT as nat;
    let exponent = before / weight;
    let fraction = before % weight;
    let scale = pow2((exponent - 1) as nat);
    if smaller < before {
        lemma_units_increase(smaller, before);
    }
    if exponent > 1023 {
        lemma_pow2_strictly_increases(1022, (exponent - 1) as nat);
    }
    lemma_pow2_pos(968);
    lemma_pow2_unfold(exponent);
    assert(magnitude_units(before) == (weight + fraction) * scale);
    if fraction + 1 < weight {
        assert(larger / weight == exponent && larger % weight == fraction + 1);
        assert(magnitude_units(larger) == (weight + (fraction + 1)) * scale);
        assert((weight + (fraction + 1)) * scale == (weight + fraction) * scale + scale)
            by (nonlinear_arith);
    } else {
        assert(larger / weight == exponent + 1 && larger % weight == 0);
        assert(((exponent + 1) - 1) as nat == exponent);
        assert(magnitude_units(larger) == (weight + 0) * pow2(exponent));
        assert((weight + 0) * (2 * scale) == (weight + fraction) * scale + scale)
            by (nonlinear_arith)
            requires
                fraction + 1 == weight,
        ;
    }
}

// ---------------------------------------------------------------------------------------------
// Laws
// ---------------------------------------------------------------------------------------------

/// A span has passed exactly from its end on.
pub proof fn law_spans_pass_at_their_end(now: UnixTime, start: UnixTime, span: Duration)
    ensures
        now.reached(start, span) <==> now.nanos - start.nanos >= span.nanos,
{
}

/// The value of magnitude bits: those without an exponent, and those with the first one, count
/// units; and each further exponent doubles the value.
pub proof fn law_exponents_double_the_value(magnitude: nat)
    ensures
        magnitude < 0x0020_0000_0000_0000 ==> magnitude_units(magnitude) == magnitude,
        magnitude >= 0x0010_0000_0000_0000 ==> magnitude_units(magnitude + 0x0010_0000_0000_0000)
            == 2 * magnitude_units(magnitude),
{
    let weight = 0x0010_0000_0000_0000nat;
    let exponent = magnitude / weight;
    let fraction = magnitude % weight;
    lemma2_to64();
    assert((magnitude + weight) / weight == exponent + 1 && (magnitude + weight) % weight
        == fraction) by (nonlinear_arith)
        requires
            weight == 0x0010_0000_0000_0000nat,
            exponent == magnitude / weight,
            fraction == magnitude % weight,
    ;
    if magnitude < 2 * weight && magnitude >= weight {
        assert(exponent == 1 && fraction == magnitude - weight) by (nonlinear_arith)
            requires
                weight == 0x0010_0000_0000_0000nat,
                weight <= magnitude < 2 * weight,
                exponent == magnitude / weight,
                fraction == magnitude % weight,
        ;
        assert(magnitude_units(magnitude) == (weight + fraction) * pow2(0));
    }
    if magnitude >= weight {
        assert(exponent >= 1) by (nonlinear_arith)
            requires
                weight == 0x0010_0000_0000_0000nat,
                magnitude >= weight,
                exponent == magnitude / weight,
        ;
        lemma_pow2_unfold(exponent);
        let scale = pow2((exponent - 1) as nat);
        assert(((exponent + 1) - 1) as nat == exponent);
        assert((weight + fraction) * (2 * scale) == 2 * ((weight + fraction) * scale))
            by (nonlinear_arith);
    }
}

/// The bits of a number: the sign stands first, then eleven bits of the exponent, and a number is
/// finite unless all of these are set; then it is infinite, or no number if a further bit is set.
pub proof fn law_bits_tell_the_kind_of_number(number: Seconds)
    ensures
        ({
            let exponent = (number.bits / 0x0010_0000_0000_0000) % 0x800;
            let fraction = number.bits % 0x0010_0000_0000_0000;
            &&& number.negative() <==> number.bits >= 0x8000_0000_0000_0000
            &&& number.finite() <==> exponent != 0x7ff
            &&& number.not_a_number() <==> exponent == 0x7ff && fraction != 0
            &&& number.magnitude() == exponent * 0x0010_0000_0000_0000 + fraction
        }),
{
}

/// How numbers compare: finite ones by their values, a positive infinity is above all of them, a
/// negative one below, and what is no number is neither less than nor equal to anything, nor
/// positive.
pub proof fn law_numbers_compare(a: Seconds, b: Seconds)
    ensures
        a.not_a_number() ==> !a.less(b) && !b.less(a) && !a.same_number(b) && !a.positive(),
        a.finite() && b.finite() ==> (a.less(b) <==> a.units() < b.units()) && (a.same_number(b)
            <==> a.units() == b.units()),
        a.finite() ==> (a.positive() <==> a.units() > 0) && (a.usable() <==> a.units() > 0),
        a.finite() && b.bits == 0x7ff0_0000_0000_0000 ==> a.less(b) && !b.less(a) && b.positive()
            && !b.usable(),
        a.finite() && b.bits == 0xfff0_0000_0000_0000 ==> b.less(a) && !a.less(b) && !b.positive(),
{
    if a.finite() && b.finite() {
        law_order_is_numeric(a, b);
    }
    if a.finite() {
        let zero = Seconds { bits: 0 };
        assert(zero.units() == 0);
        law_order_is_numeric(zero, a);
    }
}

/// A rounded quotient is one of the whole numbers nearest to it, and the even one of two that are
/// equally near.
pub proof fn law_rounding_goes_to_the_nearest(numerator: nat, denominator: nat)
    requires
        denominator > 0,
    ensures
        ({
            let error = round_half_even(numerator, denominator) * denominator - numerator;
            &&& -denominator <= 2 * error <= denominator
            &&& 2 * error == denominator || 2 * error == -denominator ==> round_half_even(
                numerator,
                denominator,
            ) % 2 == 0
        }),
{
    let quotient = numerator / denominator;
    let remainder = numerator % denominator;
    lemma_fundamental_div_mod(numerator as int, denominator as int);
    assert(quotient * denominator == denominator * quotient) by (nonlinear_arith);
    assert((quotient + 1) * denominator == denominator * quotient + denominator)
        by (nonlinear_arith);
}

/// A number of seconds is as many nanoseconds as are nearest to it, and an even number of them where
/// two are equally near.
pub proof fn law_nanoseconds_are_nearest(number: Seconds)
    requires
        number.representable(),
    ensures
        ({
            let second = pow2(1074) as int;
            let error = number.nanos() * second - number.units() * 1_000_000_000;
            &&& -second <= 2 * error <= second
            &&& 2 * error == second || 2 * error == -second ==> number.nanos() % 2 == 0
        }),
{
    lemma_pow2_pos(1074);
    law_rounding_goes_to_the_nearest(
        magnitude_units(number.magnitude()) * (NANOS_PER_SECOND as nat),
        units_per_second(),
    );
    if number.negative() {
        assert(number.magnitude() == 0);
        assert(magnitude_units(0) == 0);
    }
}

/// A number fits an interval exactly if it is finite, not negative, and less than two to the
/// sixty-fourth seconds.
pub proof fn law_intervals_hold_less_than_two_to_the_sixty_fourth(number: Seconds)
    requires
        number.finite(),
    ensures
        number.representable() <==> 0 <= number.units() < pow2(64) * pow2(1074),
{
    let weight = 0x0010_0000_0000_0000nat;
    let limit = 1087 * weight;
    assert(limit / weight == 1087 && limit % weight == 0) by (nonlinear_arith)
        requires
            weight == 0x0010_0000_0000_0000nat,
            limit == 1087 * weight,
    ;
    lemma_pow2_adds(64, 1074);
    lemma_pow2_adds(52, 1086);
    lemma2_to64_rest();
    assert(weight == pow2(52));
    assert(magnitude_units(limit) == (weight + 0) * pow2(1086));
    let m = number.magnitude();
    if m < limit {
        lemma_units_increase(m, limit);
    }
    if limit < m {
        lemma_units_increase(limit, m);
    }
    assert(magnitude_units(0) == 0);
    if 0 < m {
        lemma_units_increase(0, m);
    }
}

/// A number is just below another if it is less by fewer units than the machine epsilon has, half a
/// last place taken off.
pub proof fn law_just_below_is_within_epsilon(a: Seconds, b: Seconds)
    requires
        a.finite(),
        b.finite(),
    ensures
        a.just_below(b) <==> a.units() < b.units() < a.units() + pow2(1022) - pow2(968),
{
    law_order_is_numeric(a, b);
}

/// The greatest value of a finite number has fifty-three ones at the top of its digits.
pub proof fn law_greatest_value_is_all_ones()
    ensures
        greatest_units() == 0x001f_ffff_ffff_ffff * pow2(2045),
{
    let top = 0x7fef_ffff_ffff_ffffnat;
    assert(top / 0x0010_0000_0000_0000 == 2046 && top % 0x0010_0000_0000_0000
        == 0x000f_ffff_ffff_ffff);
}

} // verus!
