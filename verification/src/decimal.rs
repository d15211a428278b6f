//! Fixed-point decimals held as a 96-bit mantissa and a scale, with the arithmetic of
//! `rust_decimal` behind trusted wrappers.
use rust_decimal::Decimal;
use vstd::prelude::*;

verus! {

#[verifier::external_type_specification]
#[verifier::external_body]
pub struct ExDecimal(Decimal);

/// Largest magnitude of a 96-bit mantissa.
pub open spec fn max_mantissa() -> int {
    79228162514264337593543950335
}

/// Largest number of fractional digits.
pub open spec fn max_scale() -> int {
    28
}

pub open spec fn pow10(n: nat) -> int
    decreases n,
{
    if n == 0 {
        1
    } else {
        10 * pow10((n - 1) as nat)
    }
}

pub proof fn lemma_pow10_pos(n: nat)
    ensures
        pow10(n) > 0,
    decreases n,
{
    if n > 0 {
        lemma_pow10_pos((n - 1) as nat);
    }
}

/// A decimal given as `(mantissa, scale)` stands for `mantissa / 10^scale`.
pub open spec fn valid_parts(d: (int, nat)) -> bool {
    -max_mantissa() <= d.0 <= max_mantissa() && d.1 <= max_scale()
}

/// A mantissa that the 96 bits of a `Decimal` can hold.
pub open spec fn fits_mantissa(m: int) -> bool {
    -max_mantissa() <= m <= max_mantissa()
}

/// `a < b` as numbers.
pub open spec fn num_lt(a: (int, nat), b: (int, nat)) -> bool {
    a.0 * pow10(b.1) < b.0 * pow10(a.1)
}

/// `a == b` as numbers (the scales may differ).
pub open spec fn num_eq(a: (int, nat), b: (int, nat)) -> bool {
    a.0 * pow10(b.1) == b.0 * pow10(a.1)
}

pub open spec fn num_le(a: (int, nat), b: (int, nat)) -> bool {
    !num_lt(b, a)
}

pub open spec fn num_gt(a: (int, nat), b: (int, nat)) -> bool {
    num_lt(b, a)
}

pub open spec fn num_ge(a: (int, nat), b: (int, nat)) -> bool {
    !num_lt(a, b)
}

pub open spec fn parts_abs(a: (int, nat)) -> (int, nat) {
    (if a.0 < 0 { -a.0 } else { a.0 }, a.1)
}

/// `max` as `Decimal::max` picks it: the second operand only when the first is smaller.
pub open spec fn parts_max(a: (int, nat), b: (int, nat)) -> (int, nat) {
    if num_lt(a, b) { b } else { a }
}

/// `min` as `Decimal::min` picks it: the second operand only when the first is larger.
pub open spec fn parts_min(a: (int, nat), b: (int, nat)) -> (int, nat) {
    if num_lt(b, a) { b } else { a }
}

/// The value that `Decimal::checked_add` returns (`None` where `+` overflows).
pub uninterp spec fn decimal_sum(a: (int, nat), b: (int, nat)) -> Option<(int, nat)>;

/// The value that `Decimal::checked_sub` returns (`None` where `-` overflows).
pub uninterp spec fn decimal_difference(a: (int, nat), b: (int, nat)) -> Option<(int, nat)>;

/// The value that `Decimal::checked_mul` returns (`None` where `*` overflows).
pub uninterp spec fn decimal_product(a: (int, nat), b: (int, nat)) -> Option<(int, nat)>;

/// The value that `Decimal::checked_div` returns (`None` where `/` panics).
pub uninterp spec fn decimal_quotient(a: (int, nat), b: (int, nat)) -> Option<(int, nat)>;

/// The value of `Decimal::floor`.
pub uninterp spec fn decimal_floor(a: (int, nat)) -> (int, nat);

/// The value of `Decimal::ceil`.
pub uninterp spec fn decimal_ceil(a: (int, nat)) -> (int, nat);

/// The value of `Decimal::trunc`.
pub uninterp spec fn decimal_trunc(a: (int, nat)) -> (int, nat);

/// The value of `Decimal::round_dp`.
pub uninterp spec fn decimal_round_dp(a: (int, nat), dp: nat) -> (int, nat);

/// The value of `Decimal::normalize`.
pub uninterp spec fn decimal_normalize(a: (int, nat)) -> (int, nat);

/// The text that `Decimal`'s `Display` writes.
pub uninterp spec fn decimal_text(a: (int, nat)) -> Seq<char>;

/// What `Decimal::from_str` parses from a text (`None` where it fails).
pub uninterp spec fn decimal_parse(s: Seq<char>) -> Option<(int, nat)>;

/// What `Decimal::from_str_exact` parses from a text (`None` where it fails or would round).
pub uninterp spec fn decimal_parse_exact(s: Seq<char>) -> Option<(int, nat)>;

/// A decimal number: `mantissa / 10^scale` with a 96-bit mantissa and at most 28 fractional
/// digits, the representation of `rust_decimal::Decimal`.
#[derive(Clone, Copy, Debug)]
pub struct Dec {
    mantissa: i128,
    scale: u32,
}

impl View for Dec {
    type V = (int, nat);

    closed spec fn view(&self) -> (int, nat) {
        (self.mantissa as int, self.scale as nat)
    }
}

impl Dec {
    #[verifier::type_invariant]
    spec fn well_formed(self) -> bool {
        valid_parts(self@)
    }

    /// The decimal `mantissa / 10^scale`, if both parts are in range.
    pub fn from_parts(mantissa: i128, scale: u32) -> (r: Option<Dec>)
        ensures
            r is Some <==> valid_parts((mantissa as int, scale as nat)),
            r matches Some(d) ==> d@ == (mantissa as int, scale as nat),
    {
        if -79228162514264337593543950335i128 <= mantissa && mantissa
            <= 79228162514264337593543950335i128 && scale <= 28 {
            Some(Dec { mantissa, scale })
        } else {
            None
        }
    }

    /// `Decimal::new`: `num / 10^scale`.
    pub fn new(num: i64, scale: u32) -> (r: Dec)
        requires
            scale <= 28,
        ensures
            r@ == (num as int, scale as nat),
    {
        Dec { mantissa: num as i128, scale }
    }

    pub fn zero() -> (r: Dec)
        ensures
            r@ == (0int, 0nat),
    {
        Dec { mantissa: 0, scale: 0 }
    }

    pub fn one() -> (r: Dec)
        ensures
            r@ == (1int, 0nat),
    {
        Dec { mantissa: 1, scale: 0 }
    }

    pub fn from_u64(x: u64) -> (r: Dec)
        ensures
            r@ == (x as int, 0nat),
    {
        Dec { mantissa: x as i128, scale: 0 }
    }

    pub fn mantissa(&self) -> (r: i128)
        ensures
            r == self@.0,
            -max_mantissa() <= r <= max_mantissa(),
    {
        proof {
            use_type_invariant(self);
        }
        self.mantissa
    }

    pub fn scale(&self) -> (r: u32)
        ensures
            r == self@.1,
            r <= max_scale(),
    {
        proof {
            use_type_invariant(self);
        }
        self.scale
    }

    pub fn is_zero(&self) -> (r: bool)
        ensures
            r <==> self@.0 == 0,
    {
        self.mantissa == 0
    }

    pub fn is_positive(&self) -> (r: bool)
        ensures
            r <==> self@.0 > 0,
    {
        self.mantissa > 0
    }

    pub fn is_negative(&self) -> (r: bool)
        ensures
            r <==> self@.0 < 0,
    {
        self.mantissa < 0
    }

    /// `Decimal::abs`: the same scale with the sign dropped.
    pub fn abs(&self) -> (r: Dec)
        ensures
            r@ == parts_abs(self@),
    {
        proof {
            use_type_invariant(self);
        }
        if self.mantissa < 0 {
            Dec { mantissa: -self.mantissa, scale: self.scale }
        } else {
            *self
        }
    }

    /// `a < b` as numbers.
    pub fn lt(&self, other: &Dec) -> (r: bool)
        ensures
            r == num_lt(self@, other@),
    {
        dec_lt(*self, *other)
    }

    pub fn gt(&self, other: &Dec) -> (r: bool)
        ensures
            r == num_gt(self@, other@),
    {
        dec_lt(*other, *self)
    }

    pub fn le(&self, other: &Dec) -> (r: bool)
        ensures
            r == num_le(self@, other@),
    {
        !dec_lt(*other, *self)
    }

    pub fn ge(&self, other: &Dec) -> (r: bool)
        ensures
            r == num_ge(self@, other@),
    {
        !dec_lt(*self, *other)
    }

    /// Numeric equality, as `==` on `Decimal`.
    pub fn num_eq(&self, other: &Dec) -> (r: bool)
        ensures
            r == (!num_lt(self@, other@) && !num_lt(other@, self@)),
    {
        !dec_lt(*self, *other) && !dec_lt(*other, *self)
    }

    /// `Decimal::max`.
    pub fn max(self, other: Dec) -> (r: Dec)
        ensures
            r@ == parts_max(self@, other@),
    {
        if dec_lt(self, other) {
            other
        } else {
            self
        }
    }

    /// `Decimal::min`.
    pub fn min(self, other: Dec) -> (r: Dec)
        ensures
            r@ == parts_min(self@, other@),
    {
        if dec_lt(other, self) {
            other
        } else {
            self
        }
    }

    pub fn checked_add(self, other: Dec) -> (r: Option<Dec>)
        ensures
            opt_view(r) == decimal_sum(self@, other@),
            self@.0 == 0 ==> opt_view(r) == Some(other@),
            self@.0 != 0 && other@.0 == 0 ==> opt_view(r) == Some(self@),
            self@.1 == other@.1 && fits_mantissa(self@.0 + other@.0) ==> opt_view(r) == Some(
                (self@.0 + other@.0, self@.1),
            ),
    {
        dec_checked_add(self, other)
    }

    pub fn checked_sub(self, other: Dec) -> (r: Option<Dec>)
        ensures
            opt_view(r) == decimal_difference(self@, other@),
            self@.0 == 0 ==> opt_view(r) == Some((-other@.0, other@.1)),
            self@.0 != 0 && other@.0 == 0 ==> opt_view(r) == Some(self@),
            self@.1 == other@.1 && fits_mantissa(self@.0 - other@.0) ==> opt_view(r) == Some(
                (self@.0 - other@.0, self@.1),
            ),
            self@ == other@ ==> r is Some && opt_view(r).unwrap().0 == 0,
    {
        dec_checked_sub(self, other)
    }

    pub fn checked_mul(self, other: Dec) -> (r: Option<Dec>)
        ensures
            opt_view(r) == decimal_product(self@, other@),
            self@.0 == 0 || other@.0 == 0 ==> opt_view(r) == Some((0int, 0nat)),
            self@.0 != 0 && other@.0 != 0 && self@.1 + other@.1 <= 28 && fits_mantissa(
                self@.0 * other@.0,
            ) ==> opt_view(r) == Some((self@.0 * other@.0, (self@.1 + other@.1) as nat)),
    {
        dec_checked_mul(self, other)
    }

    pub fn checked_div(self, other: Dec) -> (r: Option<Dec>)
        ensures
            opt_view(r) == decimal_quotient(self@, other@),
            other@.0 == 0 ==> r is None,
            self@.0 == 0 && other@.0 != 0 ==> opt_view(r) == Some((0int, 0nat)),
    {
        dec_checked_div(self, other)
    }

    pub fn floor(&self) -> (r: Dec)
        ensures
            r@ == decimal_floor(self@),
            r@ == (self@.0 / pow10(self@.1), 0nat),
    {
        dec_floor(*self)
    }

    pub fn ceil(&self) -> (r: Dec)
        ensures
            r@ == decimal_ceil(self@),
            r@ == (-((-self@.0) / pow10(self@.1)), 0nat),
    {
        dec_ceil(*self)
    }

    pub fn trunc(&self) -> (r: Dec)
        ensures
            r@ == decimal_trunc(self@),
            r@ == (if self@.0 >= 0 {
                self@.0 / pow10(self@.1)
            } else {
                -((-self@.0) / pow10(self@.1))
            }, 0nat),
    {
        dec_trunc(*self)
    }

    pub fn round_dp(&self, dp: u32) -> (r: Dec)
        ensures
            r@ == decimal_round_dp(self@, dp as nat),
    {
        dec_round_dp(*self, dp)
    }

    pub fn normalize(&self) -> (r: Dec)
        ensures
            r@ == decimal_normalize(self@),
    {
        dec_normalize(*self)
    }

    /// The text `Decimal`'s `Display` writes.
    pub fn to_text(&self) -> (r: String)
        ensures
            r@ == decimal_text(self@),
    {
        dec_to_text(*self)
    }

    /// `Decimal::from_str`.
    pub fn parse(s: &str) -> (r: Option<Dec>)
        ensures
            opt_view(r) == decimal_parse(s@),
    {
        dec_parse(s)
    }

    /// `Decimal::from_str_exact`: fails rather than round.
    pub fn parse_exact(s: &str) -> (r: Option<Dec>)
        ensures
            opt_view(r) == decimal_parse_exact(s@),
    {
        dec_parse_exact(s)
    }
}

pub open spec fn opt_view(r: Option<Dec>) -> Option<(int, nat)> {
    match r {
        Some(d) => Some(d@),
        None => None,
    }
}

/// `a < b` by `Decimal`'s `Ord`, which compares the numbers the two decimals stand for.
#[verifier::external_body]
fn dec_lt(a: Dec, b: Dec) -> (r: bool)
    ensures
        r == num_lt(a@, b@),
{
    Decimal::from_i128_with_scale(a.mantissa, a.scale) < Decimal::from_i128_with_scale(
        b.mantissa,
        b.scale,
    )
}

/// `Decimal::checked_add`. The left operand is looked at first: where it is zero the right
/// one comes back as it is (scale included); else where the right one is zero the left one
/// comes back. Two operands of one scale whose sum fits in 96 bits add exactly, at that scale.
#[verifier::external_body]
fn dec_checked_add(a: Dec, b: Dec) -> (r: Option<Dec>)
    ensures
        opt_view(r) == decimal_sum(a@, b@),
        a@.0 == 0 ==> opt_view(r) == Some(b@),
        a@.0 != 0 && b@.0 == 0 ==> opt_view(r) == Some(a@),
        a@.1 == b@.1 && fits_mantissa(a@.0 + b@.0) ==> opt_view(r) == Some((a@.0 + b@.0, a@.1)),
        r matches Some(d) ==> valid_parts(d@),
{
    let x = Decimal::from_i128_with_scale(a.mantissa, a.scale);
    let y = Decimal::from_i128_with_scale(b.mantissa, b.scale);
    match x.checked_add(y) {
        Some(z) => Some(Dec { mantissa: z.mantissa(), scale: z.scale() }),
        None => None,
    }
}

/// `Decimal::checked_sub`. The left operand is looked at first: where it is zero the right
/// one comes back negated (scale kept); else where the right one is zero the left one comes
/// back. Two operands of one scale whose difference fits in 96 bits subtract exactly, at that
/// scale; a decimal minus itself is zero.
#[verifier::external_body]
fn dec_checked_sub(a: Dec, b: Dec) -> (r: Option<Dec>)
    ensures
        opt_view(r) == decimal_difference(a@, b@),
        a@.0 == 0 ==> opt_view(r) == Some((-b@.0, b@.1)),
        a@.0 != 0 && b@.0 == 0 ==> opt_view(r) == Some(a@),
        a@.1 == b@.1 && fits_mantissa(a@.0 - b@.0) ==> opt_view(r) == Some((a@.0 - b@.0, a@.1)),
        a@ == b@ ==> r is Some && opt_view(r).unwrap().0 == 0,
        r matches Some(d) ==> valid_parts(d@),
{
    let x = Decimal::from_i128_with_scale(a.mantissa, a.scale);
    let y = Decimal::from_i128_with_scale(b.mantissa, b.scale);
    match x.checked_sub(y) {
        Some(z) => Some(Dec { mantissa: z.mantissa(), scale: z.scale() }),
        None => None,
    }
}

/// `Decimal::checked_mul`. A zero operand gives zero at scale 0; two nonzero operands whose
/// scales add up to at most 28 and whose mantissas multiply to less than 2^96 multiply exactly.
#[verifier::external_body]
fn dec_checked_mul(a: Dec, b: Dec) -> (r: Option<Dec>)
    ensures
        opt_view(r) == decimal_product(a@, b@),
        a@.0 == 0 || b@.0 == 0 ==> opt_view(r) == Some((0int, 0nat)),
        a@.0 != 0 && b@.0 != 0 && a@.1 + b@.1 <= 28 && fits_mantissa(a@.0 * b@.0) ==> opt_view(r)
            == Some((a@.0 * b@.0, (a@.1 + b@.1) as nat)),
        r matches Some(d) ==> valid_parts(d@),
{
    let x = Decimal::from_i128_with_scale(a.mantissa, a.scale);
    let y = Decimal::from_i128_with_scale(b.mantissa, b.scale);
    match x.checked_mul(y) {
        Some(z) => Some(Dec { mantissa: z.mantissa(), scale: z.scale() }),
        None => None,
    }
}

/// `Decimal::checked_div`: `None` on a zero divisor or an overflowing quotient; zero divided
/// by a nonzero decimal is zero.
#[verifier::external_body]
fn dec_checked_div(a: Dec, b: Dec) -> (r: Option<Dec>)
    ensures
        opt_view(r) == decimal_quotient(a@, b@),
        b@.0 == 0 ==> r is None,
        a@.0 == 0 && b@.0 != 0 ==> opt_view(r) == Some((0int, 0nat)),
        r matches Some(d) ==> valid_parts(d@),
{
    let x = Decimal::from_i128_with_scale(a.mantissa, a.scale);
    let y = Decimal::from_i128_with_scale(b.mantissa, b.scale);
    match x.checked_div(y) {
        Some(z) => Some(Dec { mantissa: z.mantissa(), scale: z.scale() }),
        None => None,
    }
}

/// `Decimal::floor`: the largest integer not above the number, at scale 0.
#[verifier::external_body]
fn dec_floor(a: Dec) -> (r: Dec)
    ensures
        r@ == decimal_floor(a@),
        r@ == (a@.0 / pow10(a@.1), 0nat),
{
    let z = Decimal::from_i128_with_scale(a.mantissa, a.scale).floor();
    Dec { mantissa: z.mantissa(), scale: z.scale() }
}

/// `Decimal::ceil`: the smallest integer not below the number, at scale 0.
#[verifier::external_body]
fn dec_ceil(a: Dec) -> (r: Dec)
    ensures
        r@ == decimal_ceil(a@),
        r@ == (-((-a@.0) / pow10(a@.1)), 0nat),
{
    let z = Decimal::from_i128_with_scale(a.mantissa, a.scale).ceil();
    Dec { mantissa: z.mantissa(), scale: z.scale() }
}

/// `Decimal::trunc`: the integer part, rounded toward zero, at scale 0.
#[verifier::external_body]
fn dec_trunc(a: Dec) -> (r: Dec)
    ensures
        r@ == decimal_trunc(a@),
        r@ == (if a@.0 >= 0 {
            a@.0 / pow10(a@.1)
        } else {
            -((-a@.0) / pow10(a@.1))
        }, 0nat),
{
    let z = Decimal::from_i128_with_scale(a.mantissa, a.scale).trunc();
    Dec { mantissa: z.mantissa(), scale: z.scale() }
}

/// `Decimal::round_dp` (banker's rounding to `dp` fractional digits).
#[verifier::external_body]
fn dec_round_dp(a: Dec, dp: u32) -> (r: Dec)
    ensures
        r@ == decimal_round_dp(a@, dp as nat),
{
    let z = Decimal::from_i128_with_scale(a.mantissa, a.scale).round_dp(dp);
    Dec { mantissa: z.mantissa(), scale: z.scale() }
}

/// `Decimal::normalize` (trailing zeros dropped).
#[verifier::external_body]
fn dec_normalize(a: Dec) -> (r: Dec)
    ensures
        r@ == decimal_normalize(a@),
{
    let z = Decimal::from_i128_with_scale(a.mantissa, a.scale).normalize();
    Dec { mantissa: z.mantissa(), scale: z.scale() }
}

/// `Decimal`'s `Display`.
#[verifier::external_body]
fn dec_to_text(a: Dec) -> (r: String)
    ensures
        r@ == decimal_text(a@),
{
    Decimal::from_i128_with_scale(a.mantissa, a.scale).to_string()
}

/// `Decimal::from_str`.
#[verifier::external_body]
fn dec_parse(s: &str) -> (r: Option<Dec>)
    ensures
        opt_view(r) == decimal_parse(s@),
        r matches Some(d) ==> valid_parts(d@),
{
    match s.parse::<Decimal>() {
        Ok(z) => Some(Dec { mantissa: z.mantissa(), scale: z.scale() }),
        Err(_) => None,
    }
}

/// `Decimal::from_str_exact`.
#[verifier::external_body]
fn dec_parse_exact(s: &str) -> (r: Option<Dec>)
    ensures
        opt_view(r) == decimal_parse_exact(s@),
        r matches Some(d) ==> valid_parts(d@),
{
    match Decimal::from_str_exact(s) {
        Ok(z) => Some(Dec { mantissa: z.mantissa(), scale: z.scale() }),
        Err(_) => None,
    }
}

// ---- arithmetic that carries an overflow through ----

/// `a + b`, `None` where either side is missing or the sum overflows.
pub open spec fn add_o(a: Option<(int, nat)>, b: Option<(int, nat)>) -> Option<(int, nat)> {
    match (a, b) {
        (Some(x), Some(y)) => decimal_sum(x, y),
        _ => None,
    }
}

/// `a - b`, `None` where either side is missing or the difference overflows.
pub open spec fn sub_o(a: Option<(int, nat)>, b: Option<(int, nat)>) -> Option<(int, nat)> {
    match (a, b) {
        (Some(x), Some(y)) => decimal_difference(x, y),
        _ => None,
    }
}

/// `a * b`, `None` where either side is missing or the product overflows.
pub open spec fn mul_o(a: Option<(int, nat)>, b: Option<(int, nat)>) -> Option<(int, nat)> {
    match (a, b) {
        (Some(x), Some(y)) => decimal_product(x, y),
        _ => None,
    }
}

/// `a / b`, `None` where either side is missing, `b` is zero or the quotient overflows.
pub open spec fn div_o(a: Option<(int, nat)>, b: Option<(int, nat)>) -> Option<(int, nat)> {
    match (a, b) {
        (Some(x), Some(y)) => decimal_quotient(x, y),
        _ => None,
    }
}

/// `a.max(b)` where both are there.
pub open spec fn max_o(a: Option<(int, nat)>, b: Option<(int, nat)>) -> Option<(int, nat)> {
    match (a, b) {
        (Some(x), Some(y)) => Some(parts_max(x, y)),
        _ => None,
    }
}

/// `a.min(b)` where both are there.
pub open spec fn min_o(a: Option<(int, nat)>, b: Option<(int, nat)>) -> Option<(int, nat)> {
    match (a, b) {
        (Some(x), Some(y)) => Some(parts_min(x, y)),
        _ => None,
    }
}

/// `a.abs()` where `a` is there.
pub open spec fn abs_o(a: Option<(int, nat)>) -> Option<(int, nat)> {
    match a {
        Some(x) => Some(parts_abs(x)),
        None => None,
    }
}

pub fn opt_add(a: Option<Dec>, b: Option<Dec>) -> (r: Option<Dec>)
    ensures
        opt_view(r) == add_o(opt_view(a), opt_view(b)),
{
    match (a, b) {
        (Some(x), Some(y)) => x.checked_add(y),
        _ => None,
    }
}

pub fn opt_sub(a: Option<Dec>, b: Option<Dec>) -> (r: Option<Dec>)
    ensures
        opt_view(r) == sub_o(opt_view(a), opt_view(b)),
{
    match (a, b) {
        (Some(x), Some(y)) => x.checked_sub(y),
        _ => None,
    }
}

pub fn opt_mul(a: Option<Dec>, b: Option<Dec>) -> (r: Option<Dec>)
    ensures
        opt_view(r) == mul_o(opt_view(a), opt_view(b)),
{
    match (a, b) {
        (Some(x), Some(y)) => x.checked_mul(y),
        _ => None,
    }
}

pub fn opt_div(a: Option<Dec>, b: Option<Dec>) -> (r: Option<Dec>)
    ensures
        opt_view(r) == div_o(opt_view(a), opt_view(b)),
{
    match (a, b) {
        (Some(x), Some(y)) => x.checked_div(y),
        _ => None,
    }
}

pub fn opt_max(a: Option<Dec>, b: Option<Dec>) -> (r: Option<Dec>)
    ensures
        opt_view(r) == max_o(opt_view(a), opt_view(b)),
{
    match (a, b) {
        (Some(x), Some(y)) => Some(x.max(y)),
        _ => None,
    }
}

pub fn opt_min(a: Option<Dec>, b: Option<Dec>) -> (r: Option<Dec>)
    ensures
        opt_view(r) == min_o(opt_view(a), opt_view(b)),
{
    match (a, b) {
        (Some(x), Some(y)) => Some(x.min(y)),
        _ => None,
    }
}

pub fn opt_abs(a: Option<Dec>) -> (r: Option<Dec>)
    ensures
        opt_view(r) == abs_o(opt_view(a)),
{
    match a {
        Some(x) => Some(x.abs()),
        None => None,
    }
}

/// `Decimal::from(n)` for a count.
pub fn dec_count(n: usize) -> (r: Dec)
    ensures
        r@ == (n as int, 0nat),
{
    Dec::from_u64(n as u64)
}

/// The sum of `xs` from zero, left to right, as `Iterator::sum` adds decimals; `None` where
/// an item is missing or a partial sum overflows.
pub open spec fn sum_o(xs: Seq<Option<(int, nat)>>) -> Option<(int, nat)>
    decreases xs.len(),
{
    if xs.len() == 0 {
        Some((0int, 0nat))
    } else {
        add_o(sum_o(xs.drop_last()), xs.last())
    }
}

/// Each decimal's view, all present.
pub open spec fn present(xs: Seq<(int, nat)>) -> Seq<Option<(int, nat)>> {
    xs.map_values(|x: (int, nat)| Some(x))
}

} // verus!
