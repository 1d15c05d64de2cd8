//! Exact decimal numbers.

use vstd::arithmetic::div_mod::{
    lemma_fundamental_div_mod, lemma_mod_multiples_basic, lemma_mul_mod_noop_left, lemma_small_mod,
};
use vstd::arithmetic::power::{
    lemma_pow0, lemma_pow1, lemma_pow_adds, lemma_pow_increases, lemma_pow_positive, pow,
};
use vstd::prelude::*;
use vstd::string::StringExecFns;

verus! {

/// A decimal number: `mantissa * 10^exponent`, negated when `negative` is set.
///
/// Every combination of the three fields is a number; zero and values with
/// trailing zero digits have several representations.
#[derive(Clone, Copy, Debug, PartialEq, Eq, Structural)]
pub struct Number {
    pub negative: bool,
    pub mantissa: u64,
    pub exponent: i16,
}

/// The character of a decimal digit; `'9'` from nine on.
pub open spec fn digit_char(d: nat) -> char {
    if d == 0 {
        '0'
    } else if d == 1 {
        '1'
    } else if d == 2 {
        '2'
    } else if d == 3 {
        '3'
    } else if d == 4 {
        '4'
    } else if d == 5 {
        '5'
    } else if d == 6 {
        '6'
    } else if d == 7 {
        '7'
    } else if d == 8 {
        '8'
    } else {
        '9'
    }
}

/// The decimal digits of `n`, most significant first, without leading zeros.
pub open spec fn decimal(n: nat) -> Seq<u8>
    decreases n,
{
    if n < 10 {
        seq![n as u8]
    } else {
        decimal(n / 10).push((n % 10) as u8)
    }
}

/// The characters of a sequence of digits.
pub open spec fn glyphs(digits: Seq<u8>) -> Seq<char> {
    Seq::new(digits.len(), |i: int| digit_char(digits[i] as nat))
}

/// `n` times the character `'0'`.
pub open spec fn zeros(n: nat) -> Seq<char> {
    Seq::new(n, |i: int| '0')
}

/// Ten to the power `n`.
pub open spec fn pow10(n: nat) -> nat {
    pow(10, n) as nat
}

/// How the powers of ten begin and go on.
pub proof fn lemma_pow10_step(n: nat)
    ensures
        pow10(0) == 1,
        pow10(n) > 0,
        pow10(n + 1) == pow10(n) * 10,
{
    lemma_pow0(10);
    lemma_pow1(10);
    lemma_pow_positive(10, n);
    lemma_pow_positive(10, n + 1);
    lemma_pow_adds(10, n, 1);
}

/// The smaller of the two exponents: in units of ten to this power both
/// numbers are integers.
pub open spec fn common_floor(a: Number, b: Number) -> int {
    if a.exponent <= b.exponent {
        a.exponent as int
    } else {
        b.exponent as int
    }
}

impl Number {
    /// The absolute value counted in units of `10^floor`.
    pub open spec fn magnitude_at(self, floor: int) -> nat
        recommends
            floor <= self.exponent,
    {
        self.mantissa as nat * pow10((self.exponent - floor) as nat)
    }

    /// Whether the number is strictly greater than zero.
    pub open spec fn positive(self) -> bool {
        !self.negative && self.mantissa > 0
    }

    /// Whether the number divided by `divisor` leaves no remainder: both are
    /// counted in units of the smaller of the two powers of ten, where they
    /// are integers, and the remainder of that division is zero. Nothing is a
    /// multiple of zero.
    pub open spec fn multiple_of(self, divisor: Number) -> bool {
        let floor = common_floor(self, divisor);
        &&& divisor.mantissa > 0
        &&& self.magnitude_at(floor) % divisor.magnitude_at(floor) == 0
    }

    /// The number written out in decimal, without an exponent: a minus sign
    /// where the number is below zero, then the digits of the mantissa with
    /// zeros appended, or with the point set `-exponent` places from the right
    /// behind as many leading zeros as that takes.
    pub open spec fn text(self) -> Seq<char> {
        let digits = glyphs(decimal(self.mantissa as nat));
        let places = -(self.exponent as int);
        let sign = if self.negative && self.mantissa != 0 {
            seq!['-']
        } else {
            Seq::<char>::empty()
        };
        let body = if self.mantissa == 0 {
            digits
        } else if places <= 0 {
            digits + zeros((-places) as nat)
        } else if places < digits.len() {
            digits.subrange(0, digits.len() - places) + seq!['.'] + digits.subrange(
                digits.len() - places,
                digits.len() as int,
            )
        } else {
            seq!['0', '.'] + zeros((places - digits.len()) as nat) + digits
        };
        sign + body
    }

    /// The number `mantissa * 10^exponent`, negated when `negative` is set.
    pub fn new(negative: bool, mantissa: u64, exponent: i16) -> (number: Number)
        ensures
            number == (Number { negative, mantissa, exponent }),
    {
        Number { negative, mantissa, exponent }
    }

    /// Whether the number is strictly greater than zero.
    pub fn is_positive(&self) -> (positive: bool)
        ensures
            positive == self.positive(),
    {
        !self.negative && self.mantissa > 0
    }

    /// Whether the number divided by `divisor` leaves no remainder. The
    /// answer is exact: the numbers are decimals, and no tolerance is applied.
    pub fn is_multiple_of(&self, divisor: &Number) -> (multiple: bool)
        ensures
            multiple == self.multiple_of(*divisor),
    {
        if divisor.mantissa == 0 {
            return false;
        }
        let a: u128 = self.mantissa as u128;
        let b: u128 = divisor.mantissa as u128;
        let p: i32 = self.exponent as i32;
        let q: i32 = divisor.exponent as i32;
        if p >= q {
            let steps: u32 = (p - q) as u32;
            let mut rest: u128 = a % b;
            let mut i: u32 = 0;
            proof {
                lemma_magnitude_at(*self, self.exponent as int);
                lemma_magnitude_at(*divisor, q as int);
                assert(a * pow10(0) == a) by {
                    lemma_pow10_step(0);
                }
            }
            while i < steps
                invariant
                    i <= steps,
                    0 < b <= u64::MAX,
                    rest < b,
                    rest == (a * pow10(i as nat)) % (b as int),
                decreases steps - i,
            {
                proof {
                    lemma_pow10_step(i as nat);
                    lemma_mul_mod_noop_left(a * pow10(i as nat), 10, b as int);
                    assert(a * pow10(i as nat) * 10 == a * pow10((i + 1) as nat)) by (nonlinear_arith)
                        requires
                            pow10((i + 1) as nat) == pow10(i as nat) * 10,
                    ;
                }
                rest = (rest * 10) % b;
                i = i + 1;
            }
            rest == 0
        } else {
            let steps: u32 = (q - p) as u32;
            proof {
                lemma_magnitude_at(*self, p as int);
                lemma_magnitude_at(*divisor, p as int);
            }
            if a == 0 {
                proof {
                    lemma_small_mod(0, divisor.magnitude_at(p as int));
                }
                return true;
            }
            if b > a {
                proof {
                    lemma_scaled_exceeds(a as nat, b as nat, 0, steps as nat);
                }
                return false;
            }
            let mut scaled: u128 = b;
            let mut i: u32 = 0;
            while i < steps
                invariant
                    i <= steps,
                    0 < a <= u64::MAX,
                    0 < b,
                    scaled == b * pow10(i as nat),
                    scaled <= a,
                    self.multiple_of(*divisor) == ((a as nat) % ((b as nat) * pow10(steps as nat)) == 0),
                decreases steps - i,
            {
                proof {
                    lemma_pow10_step(i as nat);
                    assert(b * pow10(i as nat) * 10 == b * pow10((i + 1) as nat)) by (nonlinear_arith)
                        requires
                            pow10((i + 1) as nat) == pow10(i as nat) * 10,
                    ;
                }
                scaled = scaled * 10;
                i = i + 1;
                if scaled > a {
                    proof {
                        lemma_scaled_exceeds(a as nat, b as nat, i as nat, steps as nat);
                    }
                    return false;
                }
            }
            a % scaled == 0
        }
    }

    /// Writes the number out in decimal.
    pub fn to_text(&self) -> (text: String)
        ensures
            text@ == self.text(),
    {
        let digits = decimal_digits(self.mantissa);
        let count: usize = digits.len();
        let mut text = String::new();
        if self.negative && self.mantissa != 0 {
            proof {
                reveal_strlit("-");
            }
            text.append("-");
        }
        if self.mantissa == 0 {
            append_digits(&mut text, &digits, 0, count);
        } else if self.exponent >= 0 {
            append_digits(&mut text, &digits, 0, count);
            append_zeros(&mut text, self.exponent as usize);
        } else {
            let places: usize = (-(self.exponent as i32)) as usize;
            if places < count {
                let whole: usize = count - places;
                append_digits(&mut text, &digits, 0, whole);
                proof {
                    reveal_strlit(".");
                }
                text.append(".");
                append_digits(&mut text, &digits, whole, count);
            } else {
                proof {
                    reveal_strlit("0.");
                }
                text.append("0.");
                append_zeros(&mut text, places - count);
                append_digits(&mut text, &digits, 0, count);
            }
        }
        text
    }
}

/// The string of one decimal digit.
fn digit_str(d: u8) -> (s: &'static str)
    ensures
        s@ == seq![digit_char(d as nat)],
{
    proof {
        reveal_strlit("0");
        reveal_strlit("1");
        reveal_strlit("2");
        reveal_strlit("3");
        reveal_strlit("4");
        reveal_strlit("5");
        reveal_strlit("6");
        reveal_strlit("7");
        reveal_strlit("8");
        reveal_strlit("9");
    }
    let s = if d == 0 {
        "0"
    } else if d == 1 {
        "1"
    } else if d == 2 {
        "2"
    } else if d == 3 {
        "3"
    } else if d == 4 {
        "4"
    } else if d == 5 {
        "5"
    } else if d == 6 {
        "6"
    } else if d == 7 {
        "7"
    } else if d == 8 {
        "8"
    } else {
        "9"
    };
    s
}

/// The decimal digits of `n`, most significant first.
fn decimal_digits(n: u64) -> (digits: Vec<u8>)
    ensures
        digits@ == decimal(n as nat),
    decreases n,
{
    if n < 10 {
        let mut digits: Vec<u8> = Vec::new();
        digits.push(n as u8);
        digits
    } else {
        let mut digits = decimal_digits(n / 10);
        digits.push((n % 10) as u8);
        digits
    }
}

/// Appends the characters of `digits[from..to]`.
fn append_digits(text: &mut String, digits: &Vec<u8>, from: usize, to: usize)
    requires
        from <= to <= digits@.len(),
    ensures
        final(text)@ == old(text)@ + glyphs(digits@.subrange(from as int, to as int)),
{
    let mut i: usize = from;
    while i < to
        invariant
            from <= i <= to <= digits@.len(),
            text@ == old(text)@ + glyphs(digits@.subrange(from as int, i as int)),
        decreases to - i,
    {
        text.append(digit_str(digits[i]));
        i = i + 1;
    }
}

/// Appends `n` times the character `'0'`.
fn append_zeros(text: &mut String, n: usize)
    ensures
        final(text)@ == old(text)@ + zeros(n as nat),
{
    let mut i: usize = 0;
    while i < n
        invariant
            i <= n,
            text@ == old(text)@ + zeros(i as nat),
        decreases n - i,
    {
        text.append(digit_str(0));
        i = i + 1;
    }
}

/// What `magnitude_at` is at the number's own power of ten, and its sign.
proof fn lemma_magnitude_at(n: Number, floor: int)
    requires
        floor <= n.exponent,
    ensures
        n.mantissa > 0 ==> n.magnitude_at(floor) > 0,
        n.mantissa == 0 ==> n.magnitude_at(floor) == 0,
        n.magnitude_at(n.exponent as int) == n.mantissa,
{
    lemma_pow10_step(0);
    lemma_pow10_step((n.exponent - floor) as nat);
    let m = n.mantissa as nat;
    let t = pow10((n.exponent - floor) as nat);
    assert(m > 0 ==> m * t > 0) by (nonlinear_arith)
        requires
            t > 0,
    ;
    assert(m == 0 ==> m * t == 0) by (nonlinear_arith);
    assert(m * 1 == m);
}

/// A multiple of a divisor is made up of a whole number of divisors, sign
/// aside: the quotient of the magnitudes times the divisor's gives the
/// number's, with nothing left over and no tolerance applied.
pub proof fn lemma_multiple_has_whole_quotient(number: Number, divisor: Number)
    requires
        number.multiple_of(divisor),
    ensures
        ({
            let floor = common_floor(number, divisor);
            number.magnitude_at(floor) == (number.magnitude_at(floor) / divisor.magnitude_at(
                floor,
            )) * divisor.magnitude_at(floor)
        }),
{
    let floor = common_floor(number, divisor);
    let a = number.magnitude_at(floor);
    let b = divisor.magnitude_at(floor);
    lemma_magnitude_at(divisor, floor);
    lemma_fundamental_div_mod(a as int, b as int);
    assert(a == (a / b) * b) by (nonlinear_arith)
        requires
            a == b * (a / b) + a % b,
            a % b == 0,
    ;
}

/// What is made up of a whole number of divisors, sign aside, is a multiple
/// of the divisor, unless the divisor is zero.
pub proof fn lemma_whole_quotient_is_multiple(number: Number, divisor: Number, k: nat)
    requires
        divisor.mantissa > 0,
        number.magnitude_at(common_floor(number, divisor)) == k * divisor.magnitude_at(
            common_floor(number, divisor),
        ),
    ensures
        number.multiple_of(divisor),
{
    let floor = common_floor(number, divisor);
    lemma_magnitude_at(divisor, floor);
    lemma_mod_multiples_basic(k as int, divisor.magnitude_at(floor) as int);
}

/// A positive number below `b * 10^i` is no multiple of `b * 10^n` for `n >= i`.
proof fn lemma_scaled_exceeds(a: nat, b: nat, i: nat, n: nat)
    requires
        0 < a < b * pow10(i),
        i <= n,
    ensures
        a % (b * pow10(n)) != 0,
{
    lemma_pow_increases(10, i, n);
    lemma_pow_positive(10, i);
    assert(b * pow10(i) <= b * pow10(n)) by (nonlinear_arith)
        requires
            pow10(i) <= pow10(n),
    ;
    lemma_small_mod(a, b * pow10(n));
}

} // verus!
