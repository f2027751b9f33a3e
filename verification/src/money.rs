//! Exact decimal amounts.
//!
//! An amount is a signed mantissa of at most ninety-six bits together with a
//! count of fractional digits of at most twenty-eight, the layout of
//! `rust_decimal::Decimal`. Its mathematical value is read in units of
//! `10^-28`, which makes every amount an integer: two amounts are equal in
//! value exactly when their units are equal, and a sum is exact exactly when
//! the units add up.
//!
//! Addition and subtraction are done by `rust_decimal`, which rounds when a
//! result needs more digits than it can hold. Every result that comes back is
//! therefore tested against the units of the operands, and a result that is
//! not exact is refused.

use rust_decimal::Decimal;
use vstd::arithmetic::div_mod::lemma_fundamental_div_mod;
use vstd::arithmetic::mul::lemma_mul_strict_inequality;
use vstd::prelude::*;

verus! {

/// Largest magnitude of a mantissa: ninety-six bits, all set.
pub const MAX_MANTISSA: i128 = 0xFFFF_FFFF_FFFF_FFFF_FFFF_FFFF;

/// Largest number of fractional digits.
pub const MAX_SCALE: u32 = 28;

/// The number of units in one: `10^28`.
pub const UNIT: i128 = 10_000_000_000_000_000_000_000_000_000;

/// `10^n`.
pub open spec fn pow10(n: nat) -> int
    decreases n,
{
    if n == 0 {
        1
    } else {
        10 * pow10((n - 1) as nat)
    }
}

/// An exact decimal amount, `mantissa / 10^scale`.
#[derive(Clone, Copy, Debug)]
pub struct Money {
    mantissa: i128,
    scale: u32,
}

/// What `Decimal::checked_add` returns for two amounts, each with the
/// mantissa and the scale of the amount.
pub uninterp spec fn decimal_sum(a: Money, b: Money) -> Option<Money>;

/// What `Decimal::checked_sub` returns for two amounts, each with the
/// mantissa and the scale of the amount.
pub uninterp spec fn decimal_difference(a: Money, b: Money) -> Option<Money>;

/// A sum is accepted when it came back and its units are the units of the
/// operands added.
pub open spec fn accepted_sum(a: Money, b: Money, outcome: Option<Money>) -> Option<Money> {
    match outcome {
        Some(v) => if v.units() == a.units() + b.units() {
            Some(v)
        } else {
            None
        },
        None => None,
    }
}

/// A difference is accepted when it came back and its units are the units of
/// the first operand less those of the second.
pub open spec fn accepted_difference(a: Money, b: Money, outcome: Option<Money>) -> Option<
    Money,
> {
    match outcome {
        Some(v) => if v.units() == a.units() - b.units() {
            Some(v)
        } else {
            None
        },
        None => None,
    }
}

/// The exact sum of two amounts, where the decimal library produces it.
pub open spec fn exact_sum(a: Money, b: Money) -> Option<Money> {
    accepted_sum(a, b, decimal_sum(a, b))
}

/// The exact difference of two amounts, where the decimal library produces it.
pub open spec fn exact_difference(a: Money, b: Money) -> Option<Money> {
    accepted_difference(a, b, decimal_difference(a, b))
}

/// The units of all amounts of a sequence, added.
pub open spec fn total_units(s: Seq<Money>) -> int
    decreases s.len(),
{
    if s.len() == 0 {
        0
    } else {
        total_units(s.drop_last()) + s.last().units()
    }
}

/// The amounts of a sequence added one by one from zero, as long as every
/// partial sum is exact.
pub open spec fn running_sum(s: Seq<Money>) -> Option<Money>
    decreases s.len(),
{
    if s.len() == 0 {
        Some(Money::spec_zero())
    } else {
        match running_sum(s.drop_last()) {
            Some(t) => exact_sum(t, s.last()),
            None => None,
        }
    }
}

impl Money {
    /// The mantissa has at most ninety-six bits, and the scale is at most
    /// twenty-eight.
    #[verifier::type_invariant]
    pub closed spec fn in_range(self) -> bool {
        -MAX_MANTISSA <= self.mantissa <= MAX_MANTISSA && self.scale <= MAX_SCALE
    }

    /// The mantissa.
    pub closed spec fn spec_mantissa(self) -> int {
        self.mantissa as int
    }

    /// The number of fractional digits.
    pub closed spec fn spec_scale(self) -> nat {
        self.scale as nat
    }

    /// Zero, with no fractional digits.
    pub closed spec fn spec_zero() -> Money {
        Money { mantissa: 0, scale: 0 }
    }

    /// The value in units of `10^-28`.
    pub open spec fn units(self) -> int {
        self.spec_mantissa() * pow10((MAX_SCALE - self.spec_scale()) as nat)
    }

    /// The amount with the given mantissa and scale, if they are in range.
    pub fn try_new(mantissa: i128, scale: u32) -> (r: Option<Money>)
        ensures
            r is Some <==> (-MAX_MANTISSA <= mantissa <= MAX_MANTISSA && scale <= MAX_SCALE),
            r matches Some(m) ==> m.spec_mantissa() == mantissa && m.spec_scale() == scale,
    {
        if scale <= MAX_SCALE && -MAX_MANTISSA <= mantissa && mantissa <= MAX_MANTISSA {
            Some(Money { mantissa, scale })
        } else {
            None
        }
    }

    /// A whole number of the given size.
    pub fn from_whole(n: i64) -> (r: Money)
        ensures
            r.spec_mantissa() == n,
            r.spec_scale() == 0,
            r.units() == n * UNIT,
    {
        proof {
            lemma_pow10_unit();
        }
        Money { mantissa: n as i128, scale: 0 }
    }

    /// Zero.
    pub fn zero() -> (r: Money)
        ensures
            r == Money::spec_zero(),
            r.units() == 0,
    {
        proof {
            lemma_zero_units();
        }
        Money { mantissa: 0, scale: 0 }
    }

    /// The mantissa: the value with the decimal point taken out.
    pub fn mantissa(&self) -> (r: i128)
        ensures
            r == self.spec_mantissa(),
            -MAX_MANTISSA <= r <= MAX_MANTISSA,
    {
        proof {
            use_type_invariant(self);
        }
        self.mantissa
    }

    /// The scale: the number of digits after the decimal point.
    pub fn scale(&self) -> (r: u32)
        ensures
            r == self.spec_scale(),
            r <= MAX_SCALE,
    {
        proof {
            use_type_invariant(self);
        }
        self.scale
    }

    /// Whether the value is above zero.
    pub fn is_positive(&self) -> (r: bool)
        ensures
            r == (self.units() > 0),
    {
        proof {
            use_type_invariant(self);
            lemma_pow10_positive((MAX_SCALE - self.scale) as nat);
            lemma_sign_of_product(
                self.mantissa as int,
                pow10((MAX_SCALE - self.scale) as nat),
            );
        }
        self.mantissa > 0
    }

    /// Whether the value is below zero.
    pub fn is_negative(&self) -> (r: bool)
        ensures
            r == (self.units() < 0),
    {
        proof {
            use_type_invariant(self);
            lemma_pow10_positive((MAX_SCALE - self.scale) as nat);
            lemma_sign_of_product(
                self.mantissa as int,
                pow10((MAX_SCALE - self.scale) as nat),
            );
        }
        self.mantissa < 0
    }

    /// The whole part and the fractional part, the latter in units: the value
    /// is `whole * UNIT + fraction`.
    fn parts(&self) -> (p: (i128, i128))
        ensures
            self.units() == p.0 * UNIT + p.1,
            -MAX_MANTISSA <= p.0 <= MAX_MANTISSA,
            -UNIT < p.1 < UNIT,
    {
        proof {
            use_type_invariant(self);
        }
        let negative = self.mantissa < 0;
        let size: u128 = if negative {
            (-self.mantissa) as u128
        } else {
            self.mantissa as u128
        };
        let below: u128 = ten_to(self.scale);
        let above: u128 = ten_to(MAX_SCALE - self.scale);
        let whole: u128 = size / below;
        let rest: u128 = size % below;
        proof {
            lemma_pow10_product(self.scale as nat, (MAX_SCALE - self.scale) as nat);
            lemma_pow10_unit();
            lemma_fundamental_div_mod(size as int, below as int);
            lemma_mul_strict_inequality(rest as int, below as int, above as int);
            assert(rest * above < UNIT) by (nonlinear_arith)
                requires
                    rest * above < below * above,
                    below * above == UNIT,
            ;
            assert(size * above == whole * UNIT + rest * above) by (nonlinear_arith)
                requires
                    size == below * whole + rest,
                    below * above == UNIT,
            ;
            assert(whole <= size) by (nonlinear_arith)
                requires
                    size == below * whole + rest,
                    below >= 1,
                    whole >= 0,
                    rest >= 0,
            ;
        }
        let fraction: u128 = rest * above;
        if negative {
            proof {
                assert(self.mantissa * above == -(size * above)) by (nonlinear_arith)
                    requires
                        self.mantissa == -size,
                ;
            }
            (-(whole as i128), -(fraction as i128))
        } else {
            (whole as i128, fraction as i128)
        }
    }

    /// Whether two amounts have the same value, whatever their scales.
    pub fn same_value(&self, other: &Money) -> (r: bool)
        ensures
            r == (self.units() == other.units()),
    {
        let (sw, sf) = self.parts();
        let (ow, of) = other.parts();
        let dw: i128 = sw - ow;
        if dw > 1 || dw < -1 {
            false
        } else {
            dw * UNIT == of - sf
        }
    }

    /// Whether the value of `self` is below that of `other`.
    pub fn less_than(&self, other: &Money) -> (r: bool)
        ensures
            r == (self.units() < other.units()),
    {
        let (sw, sf) = self.parts();
        let (ow, of) = other.parts();
        let dw: i128 = sw - ow;
        if dw > 1 {
            false
        } else if dw < -1 {
            true
        } else {
            dw * UNIT < of - sf
        }
    }

    /// Whether the value of `self` is that of `a` and `b` added.
    pub fn is_sum_of(&self, a: &Money, b: &Money) -> (r: bool)
        ensures
            r == (self.units() == a.units() + b.units()),
    {
        let (sw, sf) = self.parts();
        let (aw, af) = a.parts();
        let (bw, bf) = b.parts();
        let dw: i128 = aw + bw - sw;
        let df: i128 = sf - af - bf;
        if dw > 2 || dw < -2 {
            false
        } else {
            dw * UNIT == df
        }
    }

    /// Keeps a sum that the decimal library returned if it is exact.
    pub fn accept_sum(a: &Money, b: &Money, outcome: Option<Money>) -> (r: Option<Money>)
        ensures
            r == accepted_sum(*a, *b, outcome),
    {
        match outcome {
            Some(v) => if v.is_sum_of(a, b) {
                Some(v)
            } else {
                None
            },
            None => None,
        }
    }

    /// Keeps a difference that the decimal library returned if it is exact.
    pub fn accept_difference(a: &Money, b: &Money, outcome: Option<Money>) -> (r: Option<Money>)
        ensures
            r == accepted_difference(*a, *b, outcome),
    {
        match outcome {
            Some(v) => if a.is_sum_of(&v, b) {
                Some(v)
            } else {
                None
            },
            None => None,
        }
    }

    /// The sum of two amounts, or `None` where the decimal library reports an
    /// overflow or returns a rounded value.
    pub fn checked_add(&self, other: &Money) -> (r: Option<Money>)
        ensures
            r == exact_sum(*self, *other),
            r matches Some(v) ==> v.units() == self.units() + other.units(),
    {
        let outcome = decimal_checked_add(self, other);
        Money::accept_sum(self, other, outcome)
    }

    /// The difference of two amounts, or `None` where the decimal library
    /// reports an overflow or returns a rounded value.
    pub fn checked_sub(&self, other: &Money) -> (r: Option<Money>)
        ensures
            r == exact_difference(*self, *other),
            r matches Some(v) ==> v.units() == self.units() - other.units(),
    {
        let outcome = decimal_checked_sub(self, other);
        Money::accept_difference(self, other, outcome)
    }

    /// Adds the amounts one by one, starting from zero. `None` as soon as a
    /// partial sum is not exact.
    pub fn sum(amounts: &Vec<Money>) -> (r: Option<Money>)
        ensures
            r == running_sum(amounts@),
            r matches Some(t) ==> t.units() == total_units(amounts@),
    {
        let mut total = Money::zero();
        let mut i: usize = 0;
        while i < amounts.len()
            invariant
                i <= amounts.len(),
                running_sum(amounts@.take(i as int)) == Some(total),
                total.units() == total_units(amounts@.take(i as int)),
            decreases amounts.len() - i,
        {
            proof {
                assert(amounts@.take(i + 1).drop_last() == amounts@.take(i as int));
            }
            match total.checked_add(&amounts[i]) {
                Some(next) => {
                    total = next;
                },
                None => {
                    proof {
                        lemma_running_sum_stays_none(amounts@, i + 1);
                    }
                    return None;
                },
            }
            i += 1;
        }
        proof {
            assert(amounts@.take(i as int) == amounts@);
        }
        Some(total)
    }
}

/// `Decimal::checked_add` on two amounts, each handed over by mantissa and
/// scale as `Decimal::from_i128_with_scale` takes them, and the sum taken
/// back by `Decimal::mantissa` and `Decimal::scale`. Of the sum it is claimed
/// only that it depends on the operands alone, and that its mantissa and
/// scale are in range, as those of every `Decimal` are; whether it is exact
/// is for the caller to test.
#[verifier::external_body]
fn decimal_checked_add(a: &Money, b: &Money) -> (r: Option<Money>)
    ensures
        r == decimal_sum(*a, *b),
        r matches Some(v) ==> v.in_range(),
{
    let x = Decimal::from_i128_with_scale(a.mantissa, a.scale);
    let y = Decimal::from_i128_with_scale(b.mantissa, b.scale);
    match x.checked_add(y) {
        Some(z) => Some(Money { mantissa: z.mantissa(), scale: z.scale() }),
        None => None,
    }
}

/// `Decimal::checked_sub` on two amounts, each handed over by mantissa and
/// scale as `Decimal::from_i128_with_scale` takes them, and the difference
/// taken back by `Decimal::mantissa` and `Decimal::scale`. Of the difference
/// it is claimed only that it depends on the operands alone, and that its
/// mantissa and scale are in range, as those of every `Decimal` are; whether
/// it is exact is for the caller to test.
#[verifier::external_body]
fn decimal_checked_sub(a: &Money, b: &Money) -> (r: Option<Money>)
    ensures
        r == decimal_difference(*a, *b),
        r matches Some(v) ==> v.in_range(),
{
    let x = Decimal::from_i128_with_scale(a.mantissa, a.scale);
    let y = Decimal::from_i128_with_scale(b.mantissa, b.scale);
    match x.checked_sub(y) {
        Some(z) => Some(Money { mantissa: z.mantissa(), scale: z.scale() }),
        None => None,
    }
}

/// `10^k` for a scale in range.
fn ten_to(k: u32) -> (r: u128)
    requires
        k <= MAX_SCALE,
    ensures
        r == pow10(k as nat),
        1 <= r <= UNIT,
{
    let mut r: u128 = 1;
    let mut i: u32 = 0;
    while i < k
        invariant
            i <= k <= MAX_SCALE,
            r == pow10(i as nat),
            r >= 1,
        decreases k - i,
    {
        proof {
            lemma_pow10_monotonic((i + 1) as nat, MAX_SCALE as nat);
            lemma_pow10_unit();
        }
        r = r * 10;
        i += 1;
    }
    proof {
        lemma_pow10_monotonic(k as nat, MAX_SCALE as nat);
        lemma_pow10_unit();
    }
    r
}

/// A power of ten is at least one.
pub proof fn lemma_pow10_positive(n: nat)
    ensures
        pow10(n) >= 1,
    decreases n,
{
    if n > 0 {
        lemma_pow10_positive((n - 1) as nat);
    }
}

/// A higher power of ten is no smaller.
pub proof fn lemma_pow10_monotonic(a: nat, b: nat)
    requires
        a <= b,
    ensures
        pow10(a) <= pow10(b),
    decreases b,
{
    lemma_pow10_positive(a);
    if a < b {
        lemma_pow10_monotonic(a, (b - 1) as nat);
    }
}

/// Powers of ten multiply by adding their exponents.
pub proof fn lemma_pow10_product(a: nat, b: nat)
    ensures
        pow10(a) * pow10(b) == pow10(a + b),
    decreases a,
{
    if a > 0 {
        lemma_pow10_product((a - 1) as nat, b);
        assert(pow10(a) * pow10(b) == 10 * (pow10((a - 1) as nat) * pow10(b)))
            by (nonlinear_arith)
            requires
                pow10(a) == 10 * pow10((a - 1) as nat),
        ;
    }
}

/// The unit is ten to the largest scale.
pub proof fn lemma_pow10_unit()
    ensures
        pow10(MAX_SCALE as nat) == UNIT,
{
    reveal_with_fuel(pow10, 29);
}

proof fn lemma_sign_of_product(m: int, p: int)
    requires
        p >= 1,
    ensures
        (m * p > 0) == (m > 0),
        (m * p < 0) == (m < 0),
        (m * p == 0) == (m == 0),
{
    assert((m * p > 0) == (m > 0) && (m * p < 0) == (m < 0)) by (nonlinear_arith)
        requires
            p >= 1,
    ;
}

/// One more amount adds its units to the total.
pub proof fn lemma_total_units_push(s: Seq<Money>, a: Money)
    ensures
        total_units(s.push(a)) == total_units(s) + a.units(),
{
    assert(s.push(a).drop_last() == s);
}

/// Zero has no units.
pub proof fn lemma_zero_units()
    ensures
        Money::spec_zero().units() == 0,
{
    lemma_pow10_positive(MAX_SCALE as nat);
    lemma_sign_of_product(0, pow10(MAX_SCALE as nat));
}

/// A running sum that exists has the units of all amounts added.
pub proof fn lemma_running_sum_units(s: Seq<Money>)
    requires
        running_sum(s) is Some,
    ensures
        running_sum(s)->0.units() == total_units(s),
    decreases s.len(),
{
    if s.len() > 0 {
        lemma_running_sum_units(s.drop_last());
    } else {
        lemma_zero_units();
    }
}

/// Once a partial sum is not exact, no longer one is.
pub proof fn lemma_running_sum_stays_none(s: Seq<Money>, n: int)
    requires
        0 <= n <= s.len(),
        running_sum(s.take(n)) is None,
    ensures
        running_sum(s) is None,
    decreases s.len() - n,
{
    if n < s.len() {
        assert(s.take(n + 1).drop_last() == s.take(n));
        lemma_running_sum_stays_none(s, n + 1);
    } else {
        assert(s.take(n) == s);
    }
}

} // verus!
