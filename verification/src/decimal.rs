//! Exact decimal numbers: what a numeric token such as `-12.5e3` denotes.
//!
//! Every measurement that enters or leaves the library is held as a
//! [`Decimal`]: a sign, an unsigned coefficient and a power of ten. The
//! arithmetic here is integer arithmetic only, so each comparison is exact.

use vstd::arithmetic::div_mod::lemma_div_denominator;
use vstd::prelude::*;
use vstd::string::*;

verus! {

/// Ten to the power `n`.
pub open spec fn pow10(n: nat) -> nat
    decreases n,
{
    if n == 0 {
        1
    } else {
        10 * pow10((n - 1) as nat)
    }
}

/// A larger exponent never gives a smaller power.
pub proof fn lemma_pow10_monotonic(a: nat, b: nat)
    requires
        a <= b,
    ensures
        1 <= pow10(a) <= pow10(b),
    decreases b,
{
    if b == 0 {
    } else if a == b {
        lemma_pow10_monotonic((a - 1) as nat, (b - 1) as nat);
    } else {
        lemma_pow10_monotonic(a, (b - 1) as nat);
    }
}

/// Powers of ten multiply by adding exponents.
pub proof fn lemma_pow10_sum(a: nat, b: nat)
    ensures
        pow10(a + b) == pow10(a) * pow10(b),
    decreases a,
{
    if a == 0 {
        assert(pow10(0) == 1);
        assert(pow10(a + b) == 1 * pow10(b));
    } else {
        lemma_pow10_sum((a - 1) as nat, b);
        assert(pow10(a + b) == 10 * pow10((a - 1 + b) as nat));
        assert(10 * (pow10((a - 1) as nat) * pow10(b)) == (10 * pow10((a - 1) as nat)) * pow10(b))
            by (nonlinear_arith);
    }
}

/// What scaling a coefficient by a positive factor keeps.
pub proof fn lemma_scale(a: int, p: int)
    requires
        a >= 0,
        p >= 1,
    ensures
        a * p >= 0,
        a == 0 ==> a * p == 0,
        a > 0 ==> a * p >= p,
        p == 1 ==> a * p == a,
{
    assert(a * p >= 0) by (nonlinear_arith)
        requires
            a >= 0,
            p >= 1,
    ;
    assert(a == 0 ==> a * p == 0) by (nonlinear_arith);
    assert(a > 0 ==> a * p >= p) by (nonlinear_arith)
        requires
            p >= 1,
    ;
    assert(p == 1 ==> a * p == a) by (nonlinear_arith);
}

/// The product of two sixty-four-bit numbers fits twice as many bits.
pub proof fn lemma_product_fits(a: int, b: int)
    requires
        0 <= a <= u64::MAX,
        0 <= b <= u64::MAX,
    ensures
        0 <= a * b <= u128::MAX,
{
    assert(0 <= a * b <= 0xffff_ffff_ffff_ffff * 0xffff_ffff_ffff_ffff) by (nonlinear_arith)
        requires
            0 <= a <= 0xffff_ffff_ffff_ffff,
            0 <= b <= 0xffff_ffff_ffff_ffff,
    ;
}

/// Multiplying both sides by a positive factor keeps their order.
pub proof fn lemma_scaling_keeps_order(x: int, y: int, k: int)
    requires
        k >= 1,
    ensures
        order_of(x * k, y * k) == order_of(x, y),
{
    assert(x < y ==> x * k < y * k) by (nonlinear_arith)
        requires
            k >= 1,
    ;
    assert(x > y ==> x * k > y * k) by (nonlinear_arith)
        requires
            k >= 1,
    ;
}

/// How two quantities stand to each other.
#[derive(Clone, Copy, Debug, PartialEq, Eq, Structural)]
pub enum Order {
    Less,
    Same,
    Greater,
}

/// The order of two integers.
pub open spec fn order_of(a: int, b: int) -> Order {
    if a < b {
        Order::Less
    } else if a == b {
        Order::Same
    } else {
        Order::Greater
    }
}

/// A decimal number: `mantissa * 10^exponent`, negated when `negative`.
///
/// Two decimals may denote the same number (`70e0` and `700e-1`); `==`
/// compares the three fields, [`Decimal::order`] compares the numbers.
#[derive(Clone, Copy, Debug, PartialEq, Eq, Structural)]
pub struct Decimal {
    pub negative: bool,
    pub mantissa: u64,
    pub exponent: i32,
}

impl Decimal {
    /// The magnitude in units of `10^base`, for a `base` at or below the
    /// exponent.
    pub open spec fn magnitude_at(self, base: int) -> int
        recommends
            base <= self.exponent,
    {
        self.mantissa as int * pow10((self.exponent - base) as nat) as int
    }

    /// The number in units of `10^base`, for a `base` at or below the
    /// exponent.
    pub open spec fn scaled(self, base: int) -> int
        recommends
            base <= self.exponent,
    {
        if self.negative {
            -self.magnitude_at(base)
        } else {
            self.magnitude_at(base)
        }
    }

    /// The smaller of the two exponents: a unit in which both are whole.
    pub open spec fn common_base(self, other: Decimal) -> int {
        if self.exponent <= other.exponent {
            self.exponent as int
        } else {
            other.exponent as int
        }
    }

    /// How the magnitudes of two decimals stand to each other.
    pub open spec fn spec_magnitude_order(self, other: Decimal) -> Order {
        let base = self.common_base(other);
        order_of(self.magnitude_at(base), other.magnitude_at(base))
    }

    /// How two decimals stand to each other as numbers.
    pub open spec fn spec_order(self, other: Decimal) -> Order {
        let base = self.common_base(other);
        order_of(self.scaled(base), other.scaled(base))
    }

    /// `self <= other` as numbers.
    pub open spec fn spec_le(self, other: Decimal) -> bool {
        self.spec_order(other) != Order::Greater
    }

    /// `self < other` as numbers.
    pub open spec fn spec_lt(self, other: Decimal) -> bool {
        self.spec_order(other) == Order::Less
    }

    /// The number is zero.
    pub open spec fn spec_is_zero(self) -> bool {
        self.mantissa == 0
    }

    /// The number is above zero.
    pub open spec fn spec_is_positive(self) -> bool {
        !self.negative && self.mantissa > 0
    }

    /// The number is below zero.
    pub open spec fn spec_is_negative(self) -> bool {
        self.negative && self.mantissa > 0
    }

    /// The whole number `n`.
    pub fn from_whole(n: u64) -> (r: Decimal)
        ensures
            r == (Decimal { negative: false, mantissa: n, exponent: 0 }),
    {
        Decimal { negative: false, mantissa: n, exponent: 0 }
    }

    /// Zero.
    pub fn zero() -> (r: Decimal)
        ensures
            r == (Decimal { negative: false, mantissa: 0, exponent: 0 }),
            r.spec_is_zero(),
    {
        Decimal { negative: false, mantissa: 0, exponent: 0 }
    }

    /// Whether the number is zero.
    pub fn is_zero(&self) -> (r: bool)
        ensures
            r == self.spec_is_zero(),
    {
        self.mantissa == 0
    }

    /// Whether the number is above zero.
    pub fn is_positive(&self) -> (r: bool)
        ensures
            r == self.spec_is_positive(),
    {
        !self.negative && self.mantissa > 0
    }

    /// Whether the number is below zero.
    pub fn is_negative(&self) -> (r: bool)
        ensures
            r == self.spec_is_negative(),
    {
        self.negative && self.mantissa > 0
    }

    /// Compares the magnitudes of two decimals, exactly.
    pub fn magnitude_order(&self, other: &Decimal) -> (r: Order)
        ensures
            r == self.spec_magnitude_order(*other),
    {
        wide_order(
            self.mantissa as u128,
            self.exponent as i64,
            other.mantissa as u128,
            other.exponent as i64,
        )
    }

    /// Compares two decimals as numbers, exactly.
    pub fn order(&self, other: &Decimal) -> (r: Order)
        ensures
            r == self.spec_order(*other),
    {
        let ghost base = self.common_base(*other);
        let ghost p = pow10((self.exponent - base) as nat) as int;
        let ghost q = pow10((other.exponent - base) as nat) as int;
        proof {
            lemma_pow10_monotonic(0, (self.exponent - base) as nat);
            lemma_pow10_monotonic(0, (other.exponent - base) as nat);
            lemma_scale(self.mantissa as int, p);
            lemma_scale(other.mantissa as int, q);
        }
        let m = self.magnitude_order(other);
        if self.negative {
            if other.negative {
                match m {
                    Order::Less => Order::Greater,
                    Order::Same => Order::Same,
                    Order::Greater => Order::Less,
                }
            } else if self.mantissa == 0 && other.mantissa == 0 {
                Order::Same
            } else {
                Order::Less
            }
        } else if other.negative {
            if self.mantissa == 0 && other.mantissa == 0 {
                Order::Same
            } else {
                Order::Greater
            }
        } else {
            m
        }
    }

    /// `self <= other` as numbers.
    pub fn le(&self, other: &Decimal) -> (r: bool)
        ensures
            r == self.spec_le(*other),
    {
        match self.order(other) {
            Order::Greater => false,
            _ => true,
        }
    }

    /// `self < other` as numbers.
    pub fn lt(&self, other: &Decimal) -> (r: bool)
        ensures
            r == self.spec_lt(*other),
    {
        match self.order(other) {
            Order::Less => true,
            _ => false,
        }
    }
}

/// A decimal in a finer unit is the same decimal in a coarser unit, times
/// the power of ten between the two.
pub proof fn lemma_rescale(d: Decimal, base: int, lower: int)
    requires
        lower <= base <= d.exponent,
    ensures
        d.magnitude_at(lower) == d.magnitude_at(base) * pow10((base - lower) as nat),
        d.scaled(lower) == d.scaled(base) * pow10((base - lower) as nat),
{
    let m = d.mantissa as int;
    let p = pow10((d.exponent - base) as nat) as int;
    let k = pow10((base - lower) as nat) as int;
    lemma_pow10_sum((d.exponent - base) as nat, (base - lower) as nat);
    assert((d.exponent - base) as nat + (base - lower) as nat == (d.exponent - lower) as nat);
    assert(m * (p * k) == (m * p) * k) by (nonlinear_arith);
    assert((-(m * p)) * k == -((m * p) * k)) by (nonlinear_arith);
}

/// Two decimals stand to each other as their whole numbers do in any unit
/// that makes both whole.
pub proof fn lemma_order_at(a: Decimal, b: Decimal, lower: int)
    requires
        lower <= a.exponent,
        lower <= b.exponent,
    ensures
        order_of(a.scaled(lower), b.scaled(lower)) == a.spec_order(b),
{
    let base = a.common_base(b);
    lemma_rescale(a, base, lower);
    lemma_rescale(b, base, lower);
    lemma_pow10_monotonic(0, (base - lower) as nat);
    lemma_scaling_keeps_order(a.scaled(base), b.scaled(base), pow10((base - lower) as nat) as int);
}

/// The order of decimals is that of numbers: it is reflexive, turning the
/// two sides round turns the answer round, and it is transitive.
pub proof fn lemma_order_laws(a: Decimal, b: Decimal, c: Decimal)
    ensures
        a.spec_order(a) == Order::Same,
        a.spec_order(b) == Order::Less <==> b.spec_order(a) == Order::Greater,
        a.spec_order(b) == Order::Same <==> b.spec_order(a) == Order::Same,
        a.spec_le(b) || b.spec_le(a),
        a.spec_le(b) && b.spec_le(c) ==> a.spec_le(c),
        a.spec_lt(b) && b.spec_le(c) ==> a.spec_lt(c),
        a.spec_le(b) && b.spec_lt(c) ==> a.spec_lt(c),
{
    let lower = if a.exponent <= b.exponent && a.exponent <= c.exponent {
        a.exponent as int
    } else if b.exponent <= c.exponent {
        b.exponent as int
    } else {
        c.exponent as int
    };
    lemma_order_at(a, a, lower);
    lemma_order_at(a, b, lower);
    lemma_order_at(b, a, lower);
    lemma_order_at(b, c, lower);
    lemma_order_at(a, c, lower);
}

/// A decimal that is not negative is at or above zero, and the other way
/// round.
pub proof fn lemma_sign_is_order(d: Decimal)
    ensures
        !d.spec_is_negative() <==> (Decimal { negative: false, mantissa: 0, exponent: 0 }).spec_le(d),
        d.spec_is_positive() <==> (Decimal { negative: false, mantissa: 0, exponent: 0 }).spec_lt(d),
{
    let z = Decimal { negative: false, mantissa: 0, exponent: 0 };
    let base = z.common_base(d);
    lemma_pow10_monotonic(0, (z.exponent - base) as nat);
    lemma_pow10_monotonic(0, (d.exponent - base) as nat);
    lemma_scale(0, pow10((z.exponent - base) as nat) as int);
    lemma_scale(d.mantissa as int, pow10((d.exponent - base) as nat) as int);
}

/// How `m1 * 10^e1` and `m2 * 10^e2` stand to each other.
pub open spec fn wide_order_spec(m1: nat, e1: int, m2: nat, e2: int) -> Order {
    let base = if e1 <= e2 {
        e1
    } else {
        e2
    };
    order_of(
        (m1 * pow10((e1 - base) as nat)) as int,
        (m2 * pow10((e2 - base) as nat)) as int,
    )
}

/// Turning the two sides round turns the answer round.
pub open spec fn turned(o: Order) -> Order {
    match o {
        Order::Less => Order::Greater,
        Order::Same => Order::Same,
        Order::Greater => Order::Less,
    }
}

/// Compares `a * 10^gap` with `b`, exactly, whatever the size of the gap.
pub fn scaled_order(a: u128, gap: u128, b: u128) -> (r: Order)
    ensures
        r == order_of((a * pow10(gap as nat)) as int, b as int),
{
    proof {
        lemma_pow10_monotonic(0, gap as nat);
        lemma_scale(a as int, pow10(gap as nat) as int);
        let p = pow10(gap as nat) as int;
        assert(a * p >= a) by (nonlinear_arith)
            requires
                a >= 0,
                p >= 1,
        ;
        assert(pow10(0) == 1);
        assert(a * 1 == a);
    }
    if a == 0 {
        return if b == 0 {
            Order::Same
        } else {
            Order::Less
        };
    }
    if a > b {
        return Order::Greater;
    }
    let mut cur: u128 = a;
    let mut i: u128 = 0;
    while i < gap
        invariant
            0 < a,
            i <= gap,
            cur == a * pow10(i as nat),
            cur <= b,
        decreases gap - i,
    {
        if cur > b / 10 {
            proof {
                let step = pow10((i + 1) as nat) as int;
                let rest = pow10((gap - (i + 1)) as nat) as int;
                lemma_pow10_sum((i + 1) as nat, (gap - (i + 1)) as nat);
                lemma_pow10_monotonic(0, (gap - (i + 1)) as nat);
                assert(a * step == cur * 10) by (nonlinear_arith)
                    requires
                        cur == a * pow10(i as nat),
                        step == 10 * pow10(i as nat),
                ;
                assert(a * (step * rest) >= a * step) by (nonlinear_arith)
                    requires
                        a > 0,
                        step > 0,
                        rest >= 1,
                ;
                assert((i + 1) as nat + (gap - (i + 1)) as nat == gap as nat);
            }
            return Order::Greater;
        }
        proof {
            assert(a * pow10((i + 1) as nat) == cur * 10) by (nonlinear_arith)
                requires
                    cur == a * pow10(i as nat),
                    pow10((i + 1) as nat) == 10 * pow10(i as nat),
            ;
        }
        cur = cur * 10;
        i = i + 1;
    }
    if cur < b {
        Order::Less
    } else {
        Order::Same
    }
}

/// Compares `m1 * 10^e1` with `m2 * 10^e2`, exactly.
pub fn wide_order(m1: u128, e1: i64, m2: u128, e2: i64) -> (r: Order)
    ensures
        r == wide_order_spec(m1 as nat, e1 as int, m2 as nat, e2 as int),
{
    proof {
        assert(pow10(0) == 1);
        assert(m1 * 1 == m1 && m2 * 1 == m2);
    }
    if e1 >= e2 {
        scaled_order(m1, (e1 as i128 - e2 as i128) as u128, m2)
    } else {
        match scaled_order(m2, (e2 as i128 - e1 as i128) as u128, m1) {
            Order::Less => Order::Greater,
            Order::Same => Order::Same,
            Order::Greater => Order::Less,
        }
    }
}

/// The bound on [`micro_units`]: ten to the power eighteen.
pub const MICRO_LIMIT: u64 = 1_000_000_000_000_000_000;

/// The magnitude of a decimal in millionths, rounded down; `None` for a
/// magnitude of a million million or more.
pub open spec fn micro_units(d: Decimal) -> Option<int> {
    let shift = d.exponent + 6;
    if shift >= 0 {
        let v = d.mantissa as int * pow10(shift as nat) as int;
        if v < MICRO_LIMIT {
            Some(v)
        } else {
            None
        }
    } else {
        let v = d.mantissa as int / pow10((-shift) as nat) as int;
        if v < MICRO_LIMIT {
            Some(v)
        } else {
            None
        }
    }
}

/// The magnitude of a decimal in millionths, rounded down.
pub fn to_micro_units(d: &Decimal) -> (r: Option<u64>)
    ensures
        r is Some <==> micro_units(*d) is Some,
        r is Some ==> r->Some_0 as int == micro_units(*d)->Some_0,
        r is Some ==> r->Some_0 < MICRO_LIMIT,
{
    let shift: i64 = d.exponent as i64 + 6;
    let m = d.mantissa;
    proof {
        assert(pow10(0) == 1);
    }
    if shift >= 0 {
        proof {
            let p = pow10(shift as nat) as int;
            lemma_pow10_monotonic(0, shift as nat);
            lemma_scale(m as int, p);
            assert(m * p >= m) by (nonlinear_arith)
                requires
                    m >= 0,
                    p >= 1,
            ;
            assert(m * 1 == m);
        }
        if m == 0 {
            return Some(0);
        }
        if m >= MICRO_LIMIT {
            return None;
        }
        let mut v: u64 = m;
        let mut i: i64 = 0;
        while i < shift
            invariant
                m == d.mantissa,
                shift == d.exponent + 6,
                0 < m,
                0 <= i <= shift,
                v == m * pow10(i as nat),
                v < MICRO_LIMIT,
            decreases shift - i,
        {
            if v >= MICRO_LIMIT / 10 {
                proof {
                    let step = pow10((i + 1) as nat) as int;
                    let rest = pow10((shift - (i + 1)) as nat) as int;
                    lemma_pow10_sum((i + 1) as nat, (shift - (i + 1)) as nat);
                    lemma_pow10_monotonic(0, (shift - (i + 1)) as nat);
                    assert(m * step == v * 10) by (nonlinear_arith)
                        requires
                            v == m * pow10(i as nat),
                            step == 10 * pow10(i as nat),
                    ;
                    assert(m * (step * rest) >= m * step) by (nonlinear_arith)
                        requires
                            m > 0,
                            step > 0,
                            rest >= 1,
                    ;
                    assert((i + 1) as nat + (shift - (i + 1)) as nat == shift as nat);
                    assert(pow10(shift as nat) as int == step * rest);
                    assert(m as int * pow10(shift as nat) as int >= v * 10);
                }
                return None;
            }
            proof {
                assert(m * pow10((i + 1) as nat) == v * 10) by (nonlinear_arith)
                    requires
                        v == m * pow10(i as nat),
                        pow10((i + 1) as nat) == 10 * pow10(i as nat),
                ;
            }
            v = v * 10;
            i = i + 1;
        }
        Some(v)
    } else {
        let k: i64 = -shift;
        let mut v: u64 = m;
        let mut i: i64 = 0;
        assert(m as int / 1 == m as int);
        while i < k && v > 0
            invariant
                m == d.mantissa,
                k == -(d.exponent + 6),
                0 <= i <= k,
                v as int == m as int / pow10(i as nat) as int,
            decreases k - i,
        {
            proof {
                lemma_pow10_monotonic(0, i as nat);
                lemma_div_denominator(m as int, pow10(i as nat) as int, 10);
                assert(pow10((i + 1) as nat) == 10 * pow10(i as nat));
                assert(pow10(i as nat) as int * 10 == pow10((i + 1) as nat) as int);
            }
            v = v / 10;
            i = i + 1;
        }
        proof {
            if i < k {
                let here = pow10(i as nat) as int;
                let rest = pow10((k - i) as nat) as int;
                lemma_pow10_sum(i as nat, (k - i) as nat);
                lemma_pow10_monotonic(0, i as nat);
                lemma_pow10_monotonic(0, (k - i) as nat);
                lemma_div_denominator(m as int, here, rest);
                assert(i as nat + (k - i) as nat == k as nat);
                assert((m as int / here) / rest == 0);
            }
        }
        if v < MICRO_LIMIT {
            Some(v)
        } else {
            None
        }
    }
}

/// The character that writes the digit `d`.
pub open spec fn digit_char(d: int) -> char {
    if d == 0 {
        '0'
    } else if d == 1 {
        '1'
    } else if d == 2 {
        '2'
    } else if d == 3 {
        '3'
    } else if d == 4 {
        '4'
    } else if d == 5 {
        '5'
    } else if d == 6 {
        '6'
    } else if d == 7 {
        '7'
    } else if d == 8 {
        '8'
    } else {
        '9'
    }
}

/// `n` written in decimal digits, without leading zeros.
pub open spec fn digits_text(n: nat) -> Seq<char>
    decreases n,
{
    if n < 10 {
        seq![digit_char(n as int)]
    } else {
        digits_text(n / 10) + seq![digit_char((n % 10) as int)]
    }
}

/// An integer written in decimal digits, with `-` before a negative one.
pub open spec fn int_text(n: int) -> Seq<char> {
    if n < 0 {
        seq!['-'] + digits_text((-n) as nat)
    } else {
        digits_text(n as nat)
    }
}

/// The character is a decimal digit.
pub open spec fn is_digit(c: char) -> bool {
    '0' <= c <= '9'
}

/// The number that a digit stands for.
pub open spec fn digit_value(c: char) -> nat {
    (c as u32 - '0' as u32) as nat
}

/// The first place at or after `i` that holds no digit.
pub open spec fn digits_end(s: Seq<char>, i: int) -> int
    decreases s.len() - i,
{
    if 0 <= i < s.len() && is_digit(s[i]) {
        digits_end(s, i + 1)
    } else {
        i
    }
}

/// The number read from the digits in `[from, to)`, continuing a number
/// whose digits so far gave `start`.
pub open spec fn accumulate(s: Seq<char>, from: int, to: int, start: nat) -> nat
    decreases to - from,
{
    if from >= to {
        start
    } else {
        accumulate(s, from + 1, to, start * 10 + digit_value(s[from]))
    }
}

/// Reading more digits never makes the number smaller.
pub proof fn lemma_accumulate_grows(s: Seq<char>, from: int, to: int, start: nat)
    ensures
        accumulate(s, from, to, start) >= start,
    decreases to - from,
{
    if from < to {
        lemma_accumulate_grows(s, from + 1, to, start * 10 + digit_value(s[from]));
    }
}

/// A run of digits ends at or after its start, inside the text.
pub proof fn lemma_digits_end_bounds(s: Seq<char>, i: int)
    requires
        0 <= i <= s.len(),
    ensures
        i <= digits_end(s, i) <= s.len(),
    decreases s.len() - i,
{
    if i < s.len() && is_digit(s[i]) {
        lemma_digits_end_bounds(s, i + 1);
    }
}

/// The largest exponent that a token may write out: the largest magnitude
/// of an exponent of a [`Decimal`].
pub const EXPONENT_DIGITS_LIMIT: u64 = 2_147_483_648;

/// Where the parts of a numeric token lie: sign, whole digits, an optional
/// `.` with fraction digits, an optional `e` or `E` with a sign and digits.
pub struct TokenLayout {
    pub whole_from: int,
    pub whole_to: int,
    pub has_fraction: bool,
    pub fraction_from: int,
    pub fraction_to: int,
    pub has_exponent: bool,
    pub exponent_negative: bool,
    pub exponent_from: int,
    pub exponent_to: int,
}

/// The layout that the grammar gives a text, read from the left.
pub open spec fn token_layout(s: Seq<char>) -> TokenLayout {
    let whole_from: int = if s.len() > 0 && s[0] == '-' {
        1
    } else {
        0
    };
    let whole_to = digits_end(s, whole_from);
    let has_fraction = whole_to < s.len() && s[whole_to] == '.';
    let fraction_from = if has_fraction {
        whole_to + 1
    } else {
        whole_to
    };
    let fraction_to = if has_fraction {
        digits_end(s, fraction_from)
    } else {
        whole_to
    };
    let has_exponent = fraction_to < s.len() && (s[fraction_to] == 'e' || s[fraction_to] == 'E');
    let sign_at = fraction_to + 1;
    let exponent_negative = has_exponent && sign_at < s.len() && s[sign_at] == '-';
    let exponent_signed = has_exponent && sign_at < s.len() && (s[sign_at] == '-' || s[sign_at]
        == '+');
    let exponent_from = if !has_exponent {
        fraction_to
    } else if exponent_signed {
        sign_at + 1
    } else {
        sign_at
    };
    let exponent_to = if has_exponent {
        digits_end(s, exponent_from)
    } else {
        fraction_to
    };
    TokenLayout {
        whole_from,
        whole_to,
        has_fraction,
        fraction_from,
        fraction_to,
        has_exponent,
        exponent_negative,
        exponent_from,
        exponent_to,
    }
}

/// The text is a numeric token: each part that is present has a digit, and
/// nothing follows the last part.
pub open spec fn is_numeric_token(s: Seq<char>) -> bool {
    let l = token_layout(s);
    &&& vstd::utf8::is_ascii_chars(s)
    &&& l.whole_to > l.whole_from
    &&& (l.has_fraction ==> l.fraction_to > l.fraction_from)
    &&& (l.has_exponent ==> l.exponent_to > l.exponent_from)
    &&& l.exponent_to == s.len()
}

/// The coefficient of a token: its whole and fraction digits read as one
/// number.
pub open spec fn token_mantissa(s: Seq<char>) -> nat {
    let l = token_layout(s);
    accumulate(s, l.fraction_from, l.fraction_to, accumulate(s, l.whole_from, l.whole_to, 0))
}

/// The exponent that a token writes out, without its sign.
pub open spec fn token_exponent_digits(s: Seq<char>) -> nat {
    let l = token_layout(s);
    accumulate(s, l.exponent_from, l.exponent_to, 0)
}

/// The power of ten of a token: the exponent written out, less one for each
/// fraction digit.
pub open spec fn token_exponent(s: Seq<char>) -> int {
    let l = token_layout(s);
    let written = token_exponent_digits(s) as int;
    (if l.exponent_negative {
        -written
    } else {
        written
    }) - (l.fraction_to - l.fraction_from)
}

/// The decimal that a text denotes: `None` unless the text is a numeric
/// token whose coefficient fits sixty-four bits and whose exponent is within
/// the limits.
#[verifier::opaque]
pub open spec fn parse_spec(s: Seq<char>) -> Option<Decimal> {
    if is_numeric_token(s) && token_mantissa(s) <= u64::MAX && token_exponent_digits(s)
        <= EXPONENT_DIGITS_LIMIT && i32::MIN <= token_exponent(s) <= i32::MAX {
        Some(
            Decimal {
                negative: token_layout(s).whole_from == 1,
                mantissa: token_mantissa(s) as u64,
                exponent: token_exponent(s) as i32,
            },
        )
    } else {
        None
    }
}

/// What reading a text as a number comes to.
#[derive(Clone, Copy, Debug, PartialEq, Eq, Structural)]
pub enum Reading {
    /// The text is a numeric token, and this is the decimal it denotes.
    Number(Decimal),
    /// The text is a numeric token, but its coefficient does not fit
    /// sixty-four bits or its exponent is beyond the limits.
    TooLong,
    /// The text is no numeric token.
    NotNumeric,
}

/// What reading a text as a number comes to.
pub open spec fn read_spec(s: Seq<char>) -> Reading {
    if !is_numeric_token(s) {
        Reading::NotNumeric
    } else {
        match parse_spec(s) {
            Some(d) => Reading::Number(d),
            None => Reading::TooLong,
        }
    }
}

/// Reads the run of digits that starts at `from`, continuing from `start`.
/// Gives the place where the run ends and the number read, or `None` for a
/// number above `limit`.
fn scan_digits(s: &str, len: usize, from: usize, start: u64, limit: u64) -> (r: (
    usize,
    Option<u64>,
))
    requires
        s.is_ascii(),
        len == s@.len(),
        from <= len,
        start <= limit,
    ensures
        r.0 == digits_end(s@, from as int),
        from <= r.0 <= len,
        r.1 == (if accumulate(s@, from as int, r.0 as int, start as nat) <= limit {
            Some(accumulate(s@, from as int, r.0 as int, start as nat) as u64)
        } else {
            None
        }),
{
    let ghost end = digits_end(s@, from as int);
    let ghost total = accumulate(s@, from as int, end, start as nat);
    proof {
        lemma_digits_end_bounds(s@, from as int);
    }
    let mut j: usize = from;
    let mut acc: u64 = start;
    let mut over: bool = false;
    let mut stop: bool = false;
    while j < len && !stop
        invariant
            stop ==> j < len && !is_digit(s@[j as int]),
            s.is_ascii(),
            len == s@.len(),
            from <= j <= end <= len,
            end == digits_end(s@, from as int),
            end == digits_end(s@, j as int),
            total == accumulate(s@, from as int, end, start as nat),
            !over ==> total == accumulate(s@, j as int, end, acc as nat) && acc <= limit,
            over ==> total > limit,
        decreases len - j + (if stop { 0int } else { 1int }),
    {
        let b: u8 = s.get_ascii(j);
        let ghost c = s@[j as int];
        if b < 48 || b > 57 {
            assert(!is_digit(c));
            stop = true;
        } else {
            assert(is_digit(c));
            assert(digit_value(c) == (b - 48) as nat);
            proof {
                lemma_digits_end_bounds(s@, j + 1);
            }
            if !over {
                let next: u128 = acc as u128 * 10 + (b - 48) as u128;
                if next > limit as u128 {
                    over = true;
                    proof {
                        lemma_accumulate_grows(s@, j + 1, end, next as nat);
                    }
                } else {
                    acc = next as u64;
                }
            }
            j = j + 1;
        }
    }
    proof {
        assert(digits_end(s@, j as int) == j);
        assert(end == j);
    }
    if over {
        (j, None)
    } else {
        (j, Some(acc))
    }
}

impl Decimal {
    /// The text that [`Decimal::render`] writes: the sign, the coefficient,
    /// `e` and the exponent.
    pub open spec fn text(self) -> Seq<char> {
        (if self.negative {
            seq!['-']
        } else {
            Seq::<char>::empty()
        }) + digits_text(self.mantissa as nat) + seq!['e'] + int_text(self.exponent as int)
    }

    /// Reads a text as a number, and says why where it is none.
    pub fn read(s: &str) -> (r: Reading)
        ensures
            r == read_spec(s@),
    {
        reveal(parse_spec);
        if !s.is_ascii() {
            return Reading::NotNumeric;
        }
        let len = s.unicode_len();
        let ghost l = token_layout(s@);
        let whole_from: usize = if len > 0 && s.get_ascii(0) == 45 {
            1
        } else {
            0
        };
        assert(whole_from == l.whole_from);
        let (whole_to, whole) = scan_digits(s, len, whole_from, 0, u64::MAX);
        if whole_to == whole_from {
            return Reading::NotNumeric;
        }
        let has_fraction = whole_to < len && s.get_ascii(whole_to) == 46;
        assert(has_fraction == l.has_fraction);
        let fraction_from: usize = if has_fraction {
            whole_to + 1
        } else {
            whole_to
        };
        let ghost whole_value = accumulate(s@, l.whole_from, l.whole_to, 0);
        let (fraction_to, mantissa) = match whole {
            None => {
                proof {
                    lemma_accumulate_grows(s@, l.fraction_from, l.fraction_to, whole_value);
                }
                (
                    if has_fraction {
                        scan_digits(s, len, fraction_from, 0, u64::MAX).0
                    } else {
                        whole_to
                    },
                    None,
                )
            },
            Some(w) => {
                if has_fraction {
                    scan_digits(s, len, fraction_from, w, u64::MAX)
                } else {
                    (whole_to, Some(w))
                }
            },
        };
        assert(fraction_to == l.fraction_to);
        assert(mantissa == (if token_mantissa(s@) <= u64::MAX {
            Some(token_mantissa(s@) as u64)
        } else {
            None
        }));
        if has_fraction && fraction_to == fraction_from {
            return Reading::NotNumeric;
        }
        let has_exponent = fraction_to < len && (s.get_ascii(fraction_to) == 101 || s.get_ascii(
            fraction_to,
        ) == 69);
        assert(has_exponent == l.has_exponent);
        let mut exponent_negative = false;
        let mut exponent_from: usize = fraction_to;
        let mut exponent_to: usize = fraction_to;
        let mut written: Option<u64> = Some(0);
        if has_exponent {
            exponent_from = fraction_to + 1;
            if exponent_from < len {
                let sign = s.get_ascii(exponent_from);
                if sign == 45 {
                    exponent_negative = true;
                    exponent_from = exponent_from + 1;
                } else if sign == 43 {
                    exponent_from = exponent_from + 1;
                }
            }
            let (to, digits) = scan_digits(s, len, exponent_from, 0, EXPONENT_DIGITS_LIMIT);
            exponent_to = to;
            written = digits;
            if exponent_to == exponent_from {
                return Reading::NotNumeric;
            }
        }
        assert(exponent_negative == l.exponent_negative);
        assert(exponent_from == l.exponent_from);
        assert(exponent_to == l.exponent_to);
        if exponent_to != len {
            return Reading::NotNumeric;
        }
        assert(is_numeric_token(s@));
        match (mantissa, written) {
            (Some(m), Some(w)) => {
                let fraction_len: i128 = (fraction_to - fraction_from) as i128;
                let signed: i128 = if exponent_negative {
                    -(w as i128)
                } else {
                    w as i128
                };
                let exponent: i128 = signed - fraction_len;
                if exponent < i32::MIN as i128 || exponent > i32::MAX as i128 {
                    Reading::TooLong
                } else {
                    Reading::Number(
                        Decimal {
                            negative: whole_from == 1,
                            mantissa: m,
                            exponent: exponent as i32,
                        },
                    )
                }
            },
            _ => Reading::TooLong,
        }
    }

    /// Reads a numeric token.
    pub fn parse(s: &str) -> (r: Option<Decimal>)
        ensures
            r == parse_spec(s@),
    {
        proof {
            reveal(parse_spec);
        }
        match Decimal::read(s) {
            Reading::Number(d) => Some(d),
            _ => None,
        }
    }

    /// Writes the decimal as a numeric token.
    pub fn render(&self) -> (r: String)
        ensures
            r@ == self.text(),
    {
        let mut out = String::new();
        if self.negative {
            proof {
                reveal_strlit("-");
            }
            out.append("-");
            assert(out@ =~= seq!['-']);
        }
        push_digits(&mut out, self.mantissa);
        proof {
            reveal_strlit("e");
            reveal_strlit("-");
        }
        out.append("e");
        let ghost before = out@;
        if self.exponent < 0 {
            out.append("-");
            push_digits(&mut out, (-(self.exponent as i64)) as u64);
        } else {
            push_digits(&mut out, self.exponent as u64);
        }
        assert(out@ =~= before + int_text(self.exponent as int));
        assert(out@ =~= self.text());
        out
    }
}

/// The one-character text of the digit `d`.
pub fn digit_str(d: u64) -> (r: &'static str)
    requires
        d < 10,
    ensures
        r@ == seq![digit_char(d as int)],
{
    proof {
        reveal_strlit("0");
        reveal_strlit("1");
        reveal_strlit("2");
        reveal_strlit("3");
        reveal_strlit("4");
        reveal_strlit("5");
        reveal_strlit("6");
        reveal_strlit("7");
        reveal_strlit("8");
        reveal_strlit("9");
    }
    let r = if d == 0 {
        "0"
    } else if d == 1 {
        "1"
    } else if d == 2 {
        "2"
    } else if d == 3 {
        "3"
    } else if d == 4 {
        "4"
    } else if d == 5 {
        "5"
    } else if d == 6 {
        "6"
    } else if d == 7 {
        "7"
    } else if d == 8 {
        "8"
    } else {
        "9"
    };
    assert(r@ =~= seq![digit_char(d as int)]);
    r
}

/// Appends `n` in decimal digits.
pub fn push_digits(out: &mut String, n: u64)
    ensures
        final(out)@ == old(out)@ + digits_text(n as nat),
    decreases n,
{
    if n >= 10 {
        push_digits(out, n / 10);
    }
    out.append(digit_str(n % 10));
    assert(final(out)@ =~= old(out)@ + digits_text(n as nat));
}

/// A digit's character is a digit and stands for that digit.
pub proof fn lemma_digit_char(k: int)
    requires
        0 <= k <= 9,
    ensures
        is_digit(digit_char(k)),
        digit_value(digit_char(k)) == k,
{
}

/// The digits of a number are at least one, and each is a digit.
pub proof fn lemma_digits_text_shape(n: nat)
    ensures
        digits_text(n).len() >= 1,
        forall|i: int| 0 <= i < digits_text(n).len() ==> is_digit(#[trigger] digits_text(n)[i]),
    decreases n,
{
    if n >= 10 {
        lemma_digits_text_shape(n / 10);
        lemma_digit_char((n % 10) as int);
    } else {
        lemma_digit_char(n as int);
    }
}

/// Reading one more digit multiplies what was read by ten and adds the
/// digit.
pub proof fn lemma_accumulate_last(s: Seq<char>, from: int, to: int, start: nat)
    requires
        from < to,
    ensures
        accumulate(s, from, to, start) == accumulate(s, from, to - 1, start) * 10 + digit_value(
            s[to - 1],
        ),
    decreases to - from,
{
    if from + 1 < to {
        lemma_accumulate_last(s, from + 1, to, start * 10 + digit_value(s[from]));
    } else {
        assert(accumulate(s, from + 1, to, start * 10 + digit_value(s[from])) == start * 10
            + digit_value(s[from]));
        assert(accumulate(s, from, to - 1, start) == start);
    }
}

/// The digits of a number, read from the left, give the number.
pub proof fn lemma_accumulate_digits(s: Seq<char>, from: int, n: nat)
    requires
        0 <= from,
        from + digits_text(n).len() <= s.len(),
        s.subrange(from, from + digits_text(n).len()) == digits_text(n),
    ensures
        accumulate(s, from, from + digits_text(n).len(), 0) == n,
    decreases n,
{
    let t = digits_text(n);
    let to = from + t.len();
    lemma_digits_text_shape(n);
    lemma_accumulate_last(s, from, to, 0);
    assert(s[to - 1] == s.subrange(from, to)[t.len() - 1]);
    if n < 10 {
        lemma_digit_char(n as int);
        assert(accumulate(s, from, to - 1, 0) == 0);
    } else {
        let h = digits_text(n / 10);
        lemma_digit_char((n % 10) as int);
        assert(t.len() == h.len() + 1);
        assert(s.subrange(from, from + h.len()) =~= h) by {
            assert forall|i: int| 0 <= i < h.len() implies s.subrange(from, from + h.len())[i]
                == h[i] by {
                assert(s.subrange(from, to)[i] == t[i]);
            }
        }
        lemma_accumulate_digits(s, from, n / 10);
        assert(t[t.len() - 1] == digit_char((n % 10) as int));
    }
}

/// A run of digits that is followed by no digit ends where it ends.
pub proof fn lemma_digits_end_run(s: Seq<char>, from: int, to: int)
    requires
        0 <= from <= to <= s.len(),
        forall|i: int| from <= i < to ==> is_digit(#[trigger] s[i]),
        to == s.len() || !is_digit(s[to]),
    ensures
        digits_end(s, from) == to,
    decreases to - from,
{
    if from < to {
        lemma_digits_end_run(s, from + 1, to);
    }
}

/// What [`Decimal::render`] writes, [`Decimal::parse`] reads back as the
/// same decimal.
pub proof fn lemma_parse_reads_render(d: Decimal)
    ensures
        parse_spec(d.text()) == Some(d),
{
    reveal(parse_spec);
    let sign = if d.negative {
        seq!['-']
    } else {
        Seq::<char>::empty()
    };
    let mantissa = d.mantissa as nat;
    let m = digits_text(mantissa);
    let esign = if d.exponent < 0 {
        seq!['-']
    } else {
        Seq::<char>::empty()
    };
    let magnitude: nat = if d.exponent < 0 {
        (-d.exponent) as nat
    } else {
        d.exponent as nat
    };
    let x = digits_text(magnitude);
    let s = d.text();
    assert(int_text(d.exponent as int) =~= esign + x);
    assert(s =~= sign + m + seq!['e'] + esign + x);
    lemma_digits_text_shape(mantissa);
    lemma_digits_text_shape(magnitude);
    let a = sign.len() as int;
    let b = a + m.len();
    let c = b + 1 + esign.len();
    let n = c + x.len();
    assert(s.len() == n);
    assert forall|i: int| a <= i < b implies is_digit(#[trigger] s[i]) by {
        assert(s[i] == m[i - a]);
    }
    assert(s[b] == 'e');
    assert forall|i: int| c <= i < n implies is_digit(#[trigger] s[i]) by {
        assert(s[i] == x[i - c]);
    }
    if d.negative {
        assert(s[0] == '-');
    } else {
        assert(is_digit(s[0]));
    }
    if d.exponent < 0 {
        assert(s[b + 1] == '-');
    } else {
        assert(is_digit(s[b + 1]));
    }
    lemma_digits_end_run(s, a, b);
    lemma_digits_end_run(s, c, n);
    let l = token_layout(s);
    assert(l.whole_from == a);
    assert(l.whole_to == b);
    assert(!l.has_fraction);
    assert(l.fraction_from == b && l.fraction_to == b);
    assert(l.has_exponent);
    assert(l.exponent_negative == (d.exponent < 0));
    assert(l.exponent_from == c);
    assert(l.exponent_to == n);
    assert(vstd::utf8::is_ascii_chars(s)) by {
        assert forall|i: int| 0 <= i < s.len() implies '\0' <= #[trigger] s[i] <= '\u{7f}' by {
            if i < a {
                assert(s[i] == '-');
            } else if i < b {
                assert(is_digit(s[i]));
            } else if i == b {
            } else if i < c {
                assert(s[i] == '-');
            } else {
                assert(is_digit(s[i]));
            }
        }
    }
    assert(s.subrange(a, b) =~= m);
    lemma_accumulate_digits(s, a, mantissa);
    assert(s.subrange(c, n) =~= x);
    lemma_accumulate_digits(s, c, magnitude);
    assert(accumulate(s, b, b, mantissa) == mantissa);
    assert(token_mantissa(s) == mantissa);
    assert(token_exponent_digits(s) == magnitude);
    assert(token_exponent(s) == d.exponent);
}

} // verus!
