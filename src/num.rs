//! Arbitrary-precision integers, computed by `num_bigint`.
//!
//! `Int` holds a sign and base 2^32 digits. Each wrapper below turns its
//! arguments into `BigInt` with `BigInt::from_slice` and its result back
//! with `BigInt::to_u32_digits`; both keep the value (a zero magnitude
//! reads as zero whatever its sign).
use num_bigint::{BigInt, Sign};
use vstd::prelude::*;

verus! {

/// An arbitrary-precision integer: a sign and base 2^32 digits, least
/// significant digit first. Trailing zero digits are allowed.
#[derive(Debug)]
pub struct Int {
    negative: bool,
    digits: Vec<u32>,
}

/// The value of base 2^32 digits, least significant first.
pub open spec fn digits_value(d: Seq<u32>) -> nat
    decreases d.len(),
{
    if d.len() == 0 {
        0
    } else {
        d[0] as nat + 0x1_0000_0000 * digits_value(d.drop_first())
    }
}

impl View for Int {
    type V = int;

    closed spec fn view(&self) -> int {
        if self.negative {
            -digits_value(self.digits@)
        } else {
            digits_value(self.digits@) as int
        }
    }
}

pub open spec fn abs(a: int) -> int {
    if a < 0 {
        -a
    } else {
        a
    }
}

/// Quotient of `a / b` rounded toward zero.
pub open spec fn trunc_div(a: int, b: int) -> int {
    let q = abs(a) / abs(b);
    if (a < 0) == (b < 0) {
        q
    } else {
        -q
    }
}

/// Remainder of `a / b` rounded toward zero; it has the sign of `a`.
pub open spec fn trunc_rem(a: int, b: int) -> int {
    a - b * trunc_div(a, b)
}

pub open spec fn is_digit(c: char) -> bool {
    '0' <= c <= '9'
}

pub open spec fn digit_value(c: char) -> nat {
    (c as u32 - '0' as u32) as nat
}

pub open spec fn digit_char(d: nat) -> char {
    if d == 0 {
        '0'
    } else if d == 1 {
        '1'
    } else if d == 2 {
        '2'
    } else if d == 3 {
        '3'
    } else if d == 4 {
        '4'
    } else if d == 5 {
        '5'
    } else if d == 6 {
        '6'
    } else if d == 7 {
        '7'
    } else if d == 8 {
        '8'
    } else {
        '9'
    }
}

/// The number that a sequence of decimal digits writes.
pub open spec fn decimal_value(s: Seq<char>) -> nat
    decreases s.len(),
{
    if s.len() == 0 {
        0
    } else {
        decimal_value(s.drop_last()) * 10 + digit_value(s.last())
    }
}

/// Decimal digits of a natural number, without leading zeros.
pub open spec fn nat_decimal(n: nat) -> Seq<char>
    decreases n,
{
    if n < 10 {
        seq![digit_char(n)]
    } else {
        nat_decimal(n / 10).push(digit_char(n % 10))
    }
}

/// Decimal text of an integer, with a leading `-` when it is negative.
pub open spec fn int_decimal(v: int) -> Seq<char> {
    if v < 0 {
        seq!['-'] + nat_decimal((-v) as nat)
    } else {
        nat_decimal(v as nat)
    }
}

/// Relies on `BigInt + BigInt` (`Add`): the exact sum.
#[verifier::external_body]
fn big_add(a: &Int, b: &Int) -> (r: Int)
    ensures
        r@ == a@ + b@,
{
    let x = BigInt::from_slice(if a.negative { Sign::Minus } else { Sign::Plus }, &a.digits);
    let y = BigInt::from_slice(if b.negative { Sign::Minus } else { Sign::Plus }, &b.digits);
    let (s, d) = (x + y).to_u32_digits();
    Int { negative: matches!(s, Sign::Minus), digits: d }
}

/// Relies on `BigInt - BigInt` (`Sub`): the exact difference.
#[verifier::external_body]
fn big_sub(a: &Int, b: &Int) -> (r: Int)
    ensures
        r@ == a@ - b@,
{
    let x = BigInt::from_slice(if a.negative { Sign::Minus } else { Sign::Plus }, &a.digits);
    let y = BigInt::from_slice(if b.negative { Sign::Minus } else { Sign::Plus }, &b.digits);
    let (s, d) = (x - y).to_u32_digits();
    Int { negative: matches!(s, Sign::Minus), digits: d }
}

/// Relies on `BigInt * BigInt` (`Mul`): the exact product.
#[verifier::external_body]
fn big_mul(a: &Int, b: &Int) -> (r: Int)
    ensures
        r@ == a@ * b@,
{
    let x = BigInt::from_slice(if a.negative { Sign::Minus } else { Sign::Plus }, &a.digits);
    let y = BigInt::from_slice(if b.negative { Sign::Minus } else { Sign::Plus }, &b.digits);
    let (s, d) = (x * y).to_u32_digits();
    Int { negative: matches!(s, Sign::Minus), digits: d }
}

/// Relies on `BigInt / BigInt` (`Div`): the quotient rounded toward zero;
/// it panics on a zero divisor.
#[verifier::external_body]
fn big_div(a: &Int, b: &Int) -> (r: Int)
    requires
        b@ != 0,
    ensures
        r@ == trunc_div(a@, b@),
{
    let x = BigInt::from_slice(if a.negative { Sign::Minus } else { Sign::Plus }, &a.digits);
    let y = BigInt::from_slice(if b.negative { Sign::Minus } else { Sign::Plus }, &b.digits);
    let (s, d) = (x / y).to_u32_digits();
    Int { negative: matches!(s, Sign::Minus), digits: d }
}

/// Relies on `BigInt % BigInt` (`Rem`): the remainder with the sign of the
/// dividend; it panics on a zero divisor.
#[verifier::external_body]
fn big_rem(a: &Int, b: &Int) -> (r: Int)
    requires
        b@ != 0,
    ensures
        r@ == trunc_rem(a@, b@),
{
    let x = BigInt::from_slice(if a.negative { Sign::Minus } else { Sign::Plus }, &a.digits);
    let y = BigInt::from_slice(if b.negative { Sign::Minus } else { Sign::Plus }, &b.digits);
    let (s, d) = (x % y).to_u32_digits();
    Int { negative: matches!(s, Sign::Minus), digits: d }
}

/// Relies on `BigInt: FromStr`: a non-empty run of decimal digits always
/// parses, to the number it writes.
#[verifier::external_body]
fn big_parse(s: &str) -> (r: Option<Int>)
    requires
        s@.len() > 0,
        forall|i: int| 0 <= i < s@.len() ==> is_digit(#[trigger] s@[i]),
    ensures
        r is Some,
        r->0@ == decimal_value(s@),
{
    match s.parse::<BigInt>() {
        Ok(x) => {
            let (s, d) = x.to_u32_digits();
            Some(Int { negative: matches!(s, Sign::Minus), digits: d })
        },
        Err(_) => None,
    }
}

/// Relies on `BigInt: Display` (through `to_string`): decimal digits, with a
/// leading `-` for a negative number.
#[verifier::external_body]
fn big_to_string(a: &Int) -> (r: String)
    ensures
        r@ == int_decimal(a@),
{
    BigInt::from_slice(if a.negative { Sign::Minus } else { Sign::Plus }, &a.digits).to_string()
}

/// Relies on `usize: TryFrom<BigInt>`: it succeeds exactly on the values
/// that a `usize` can hold.
#[verifier::external_body]
fn big_to_usize(a: &Int) -> (r: Option<usize>)
    ensures
        r == (if 0 <= a@ <= usize::MAX {
            Some(a@ as usize)
        } else {
            None::<usize>
        }),
{
    usize::try_from(
        BigInt::from_slice(if a.negative { Sign::Minus } else { Sign::Plus }, &a.digits),
    ).ok()
}

/// Relies on `BigInt: From<i64>`: the same value.
#[verifier::external_body]
fn big_from_i64(v: i64) -> (r: Int)
    ensures
        r@ == v as int,
{
    let (s, d) = BigInt::from(v).to_u32_digits();
    Int { negative: matches!(s, Sign::Minus), digits: d }
}

proof fn lemma_nonzero_digit(d: Seq<u32>, i: int)
    requires
        0 <= i < d.len(),
        d[i] != 0,
    ensures
        digits_value(d) > 0,
    decreases d.len(),
{
    if i > 0 {
        assert(d.drop_first()[i - 1] == d[i]);
        lemma_nonzero_digit(d.drop_first(), i - 1);
    }
}

proof fn lemma_zero_digits(d: Seq<u32>)
    requires
        forall|i: int| 0 <= i < d.len() ==> d[i] == 0,
    ensures
        digits_value(d) == 0,
    decreases d.len(),
{
    if d.len() > 0 {
        assert forall|i: int| 0 <= i < d.drop_first().len() implies d.drop_first()[i] == 0 by {
            assert(d.drop_first()[i] == d[i + 1]);
        }
        lemma_zero_digits(d.drop_first());
    }
}

impl Int {
    /// The integer with the value of `v`.
    pub fn from_i64(v: i64) -> (r: Int)
        ensures
            r@ == v as int,
    {
        big_from_i64(v)
    }

    /// Parses a non-empty run of decimal digits; `None` only where the
    /// digits cannot be read as a number.
    pub fn from_decimal(s: &str) -> (r: Option<Int>)
        requires
            s@.len() > 0,
            forall|i: int| 0 <= i < s@.len() ==> is_digit(#[trigger] s@[i]),
        ensures
            r matches Some(v) && v@ == decimal_value(s@),
    {
        big_parse(s)
    }

    /// The decimal text of the value.
    pub fn to_decimal(&self) -> (r: String)
        ensures
            r@ == int_decimal(self@),
    {
        big_to_string(self)
    }

    /// The value as an index, where it is one.
    pub fn to_usize(&self) -> (r: Option<usize>)
        ensures
            r == (if 0 <= self@ <= usize::MAX {
                Some(self@ as usize)
            } else {
                None::<usize>
            }),
    {
        big_to_usize(self)
    }

    /// A copy with the same value.
    pub fn copy(&self) -> (r: Int)
        ensures
            r@ == self@,
    {
        let digits = self.digits.clone();
        assert(digits@ =~= self.digits@);
        Int { negative: self.negative, digits }
    }

    /// Whether the value is zero.
    pub fn is_zero(&self) -> (r: bool)
        ensures
            r == (self@ == 0),
    {
        let mut i: usize = 0;
        while i < self.digits.len()
            invariant
                0 <= i <= self.digits@.len(),
                forall|j: int| 0 <= j < i ==> self.digits@[j] == 0,
            decreases self.digits@.len() - i,
        {
            if self.digits[i] != 0 {
                proof {
                    lemma_nonzero_digit(self.digits@, i as int);
                }
                return false;
            }
            i = i + 1;
        }
        proof {
            lemma_zero_digits(self.digits@);
        }
        true
    }

    /// Whether the value is below zero.
    pub fn is_negative(&self) -> (r: bool)
        ensures
            r == (self@ < 0),
    {
        self.negative && !self.is_zero()
    }

    /// Whether the value is above zero.
    pub fn is_positive(&self) -> (r: bool)
        ensures
            r == (self@ > 0),
    {
        !self.negative && !self.is_zero()
    }

    /// The negated value.
    pub fn neg(&self) -> (r: Int)
        ensures
            r@ == -self@,
    {
        let digits = self.digits.clone();
        assert(digits@ =~= self.digits@);
        Int { negative: !self.negative, digits }
    }

    /// The sum.
    pub fn add(&self, other: &Int) -> (r: Int)
        ensures
            r@ == self@ + other@,
    {
        big_add(self, other)
    }

    /// The difference.
    pub fn sub(&self, other: &Int) -> (r: Int)
        ensures
            r@ == self@ - other@,
    {
        big_sub(self, other)
    }

    /// The product.
    pub fn mul(&self, other: &Int) -> (r: Int)
        ensures
            r@ == self@ * other@,
    {
        big_mul(self, other)
    }

    /// The quotient rounded toward zero; `None` for a zero divisor.
    pub fn checked_div(&self, other: &Int) -> (r: Option<Int>)
        ensures
            other@ == 0 ==> r is None,
            other@ != 0 ==> (r matches Some(q) && q@ == trunc_div(self@, other@)),
    {
        if other.is_zero() {
            None
        } else {
            Some(big_div(self, other))
        }
    }

    /// The remainder with the sign of `self`; `None` for a zero divisor.
    pub fn checked_rem(&self, other: &Int) -> (r: Option<Int>)
        ensures
            other@ == 0 ==> r is None,
            other@ != 0 ==> (r matches Some(q) && q@ == trunc_rem(self@, other@)),
    {
        if other.is_zero() {
            None
        } else {
            Some(big_rem(self, other))
        }
    }
}

} // verus!
