//! Decimal numbers, as the crate `rust_decimal` computes with them.

use rust_decimal::Decimal;
use vstd::prelude::*;
use crate::text::{dec, zero_padded};

verus! {

/// A decimal number: an integer, and how many of its digits stand behind the point.
#[verifier::ext_equal]
pub struct Dec {
    pub mantissa: int,
    pub scale: nat,
}

pub open spec fn pow10(n: nat) -> nat
    decreases n,
{
    if n == 0 {
        1
    } else {
        10 * pow10((n - 1) as nat)
    }
}

/// The largest mantissa: 96 bits.
pub open spec fn max_mantissa() -> int {
    0xffff_ffff_ffff_ffff_ffff_ffff
}

/// The numbers that a `Decimal` can hold.
pub open spec fn is_decimal(d: Dec) -> bool {
    -max_mantissa() <= d.mantissa <= max_mantissa() && d.scale <= 28
}

/// The value of a number, counted in the smallest unit that any of them can have.
pub open spec fn units(d: Dec) -> int {
    d.mantissa * pow10((28 - d.scale) as nat)
}

/// The mantissa of a number with as many digits behind the point as `scale` says.
pub open spec fn aligned(d: Dec, scale: nat) -> int {
    d.mantissa * pow10((scale - d.scale) as nat)
}

pub open spec fn larger(a: nat, b: nat) -> nat {
    if a >= b {
        a
    } else {
        b
    }
}

pub open spec fn fits(m: int) -> bool {
    -max_mantissa() <= m <= max_mantissa()
}

/// Whether two numbers can be written with equally many digits behind the point.
pub open spec fn alignable(a: Dec, b: Dec) -> bool {
    let s = larger(a.scale, b.scale);
    fits(aligned(a, s)) && fits(aligned(b, s))
}

/// The sum of two numbers, with as many digits behind the point as the longer has; zero adds
/// nothing, not even digits.
pub open spec fn exact_sum(a: Dec, b: Dec) -> Dec {
    let s = larger(a.scale, b.scale);
    if a.mantissa == 0 {
        b
    } else if b.mantissa == 0 {
        a
    } else {
        Dec { mantissa: aligned(a, s) + aligned(b, s), scale: s }
    }
}

/// The difference of two numbers, with as many digits behind the point as the longer has.
pub open spec fn exact_difference(a: Dec, b: Dec) -> Dec {
    exact_sum(a, Dec { mantissa: -b.mantissa, scale: b.scale })
}

/// Whether the sum of two numbers can be held without rounding.
pub open spec fn sum_is_exact(a: Dec, b: Dec) -> bool {
    alignable(a, b) && fits(exact_sum(a, b).mantissa)
}

/// Whether the difference of two numbers can be held without rounding.
pub open spec fn difference_is_exact(a: Dec, b: Dec) -> bool {
    alignable(a, b) && fits(exact_difference(a, b).mantissa)
}

/// A number as text: a sign where it is negative, at least one digit, and a point where digits
/// stand behind it.
pub open spec fn decimal_text(d: Dec) -> Seq<char> {
    let m = if d.mantissa < 0 {
        -d.mantissa
    } else {
        d.mantissa
    };
    let digits = zero_padded(dec(m as nat), d.scale + 1);
    let whole = digits.len() - d.scale;
    let number = if d.scale == 0 {
        digits
    } else {
        digits.take(whole) + seq!['.'] + digits.skip(whole)
    };
    if d.mantissa < 0 {
        seq!['-'] + number
    } else {
        number
    }
}

/// What `Decimal::from_str` reads in a text.
pub uninterp spec fn parsed_decimal(s: Seq<char>) -> Option<Dec>;

/// What `Decimal::checked_add` gives where the sum cannot be held exactly: a rounded one, or nothing
/// where it is too large.
pub uninterp spec fn rounded_sum(a: Dec, b: Dec) -> Option<Dec>;

/// What `Decimal::checked_sub` gives where the difference cannot be held exactly: a rounded one, or
/// nothing where it is too large.
pub uninterp spec fn rounded_difference(a: Dec, b: Dec) -> Option<Dec>;

/// What `Decimal::checked_mul` gives where the product cannot be held exactly: a rounded one, or
/// nothing where it is too large.
pub uninterp spec fn rounded_product(a: Dec, b: Dec) -> Option<Dec>;

/// The sum of two numbers, exact where it can be held.
pub open spec fn decimal_sum(a: Dec, b: Dec) -> Option<Dec> {
    if sum_is_exact(a, b) {
        Some(exact_sum(a, b))
    } else {
        rounded_sum(a, b)
    }
}

/// The difference of two numbers, exact where it can be held.
pub open spec fn decimal_difference(a: Dec, b: Dec) -> Option<Dec> {
    if difference_is_exact(a, b) {
        Some(exact_difference(a, b))
    } else {
        rounded_difference(a, b)
    }
}

/// Whether the product of two numbers, neither of them zero, can be held without rounding.
pub open spec fn product_is_exact(a: Dec, b: Dec) -> bool {
    a.mantissa != 0 && b.mantissa != 0 && fits(a.mantissa * b.mantissa) && a.scale + b.scale <= 28
}

/// The product of two numbers, exact where it can be held.
pub open spec fn decimal_product(a: Dec, b: Dec) -> Option<Dec> {
    if product_is_exact(a, b) {
        Some(Dec { mantissa: a.mantissa * b.mantissa, scale: (a.scale + b.scale) as nat })
    } else {
        rounded_product(a, b)
    }
}

/// An amount of credits: a decimal number.
#[derive(Debug, Clone, Copy)]
pub struct Amount {
    mantissa: i128,
    scale: u32,
}

impl View for Amount {
    type V = Dec;

    closed spec fn view(&self) -> Dec {
        Dec { mantissa: self.mantissa as int, scale: self.scale as nat }
    }
}

pub open spec fn amount_view(a: Option<Amount>) -> Option<Dec> {
    match a {
        Some(d) => Some(d@),
        None => None,
    }
}

/// `Decimal::from_str`: a number that it reads can be held, and the text of a number that is not
/// negative reads back as that number. Which other texts are numbers is left to the name.
#[verifier::external_body]
fn decimal_from_str(s: &str) -> (r: Option<Amount>)
    ensures
        amount_view(r) == parsed_decimal(s@),
        r matches Some(d) ==> is_decimal(d@),
        forall|d: Dec|
            is_decimal(d) && d.mantissa >= 0 && s@ == #[trigger] decimal_text(d) ==> amount_view(r)
                == Some(d),
{
    match s.parse::<Decimal>() {
        Ok(d) => Some(Amount { mantissa: d.mantissa(), scale: d.scale() }),
        Err(_) => None,
    }
}

/// `Decimal::to_string`, the text of a number.
#[verifier::external_body]
fn decimal_to_string(a: &Amount) -> (r: String)
    ensures
        r@ == decimal_text(a@),
{
    Decimal::from_i128_with_scale(a.mantissa, a.scale).to_string()
}

/// `Decimal::lt`: numbers are compared by their values.
#[verifier::external_body]
fn decimal_lt(a: &Amount, b: &Amount) -> (r: bool)
    ensures
        r == (units(a@) < units(b@)),
{
    let x = Decimal::from_i128_with_scale(a.mantissa, a.scale);
    let y = Decimal::from_i128_with_scale(b.mantissa, b.scale);
    x < y
}

/// `Decimal::checked_add`: the sum, exact where both numbers and the sum can be held with the same
/// digits behind the point.
#[verifier::external_body]
fn decimal_add(a: &Amount, b: &Amount) -> (r: Option<Amount>)
    ensures
        amount_view(r) == (if sum_is_exact(a@, b@) {
            Some(exact_sum(a@, b@))
        } else {
            rounded_sum(a@, b@)
        }),
        r matches Some(d) ==> is_decimal(d@),
{
    let x = Decimal::from_i128_with_scale(a.mantissa, a.scale);
    let y = Decimal::from_i128_with_scale(b.mantissa, b.scale);
    match x.checked_add(y) {
        Some(d) => Some(Amount { mantissa: d.mantissa(), scale: d.scale() }),
        None => None,
    }
}

/// `Decimal::checked_sub`: the difference, exact where both numbers and the difference can be held
/// with the same digits behind the point.
#[verifier::external_body]
fn decimal_sub(a: &Amount, b: &Amount) -> (r: Option<Amount>)
    ensures
        amount_view(r) == (if difference_is_exact(a@, b@) {
            Some(exact_difference(a@, b@))
        } else {
            rounded_difference(a@, b@)
        }),
        r matches Some(d) ==> is_decimal(d@),
{
    let x = Decimal::from_i128_with_scale(a.mantissa, a.scale);
    let y = Decimal::from_i128_with_scale(b.mantissa, b.scale);
    match x.checked_sub(y) {
        Some(d) => Some(Amount { mantissa: d.mantissa(), scale: d.scale() }),
        None => None,
    }
}

/// `Decimal::checked_mul`: the product, exact where neither number is zero and the product of the
/// mantissas and the sum of the scales can be held.
#[verifier::external_body]
fn decimal_mul(a: &Amount, b: &Amount) -> (r: Option<Amount>)
    ensures
        amount_view(r) == (if product_is_exact(a@, b@) {
            Some(Dec { mantissa: a@.mantissa * b@.mantissa, scale: (a@.scale + b@.scale) as nat })
        } else {
            rounded_product(a@, b@)
        }),
        r matches Some(d) ==> is_decimal(d@),
{
    let x = Decimal::from_i128_with_scale(a.mantissa, a.scale);
    let y = Decimal::from_i128_with_scale(b.mantissa, b.scale);
    match x.checked_mul(y) {
        Some(d) => Some(Amount { mantissa: d.mantissa(), scale: d.scale() }),
        None => None,
    }
}

impl Amount {
    #[verifier::type_invariant]
    spec fn can_be_held(self) -> bool {
        is_decimal(self@)
    }

    /// The whole number `n`.
    pub fn whole(n: u32) -> (r: Self)
        ensures
            r@ == (Dec { mantissa: n as int, scale: 0 }),
    {
        Amount { mantissa: n as i128, scale: 0 }
    }

    /// The number in a text.
    pub fn parse(s: &str) -> (r: Option<Self>)
        ensures
            amount_view(r) == parsed_decimal(s@),
            forall|d: Dec|
                is_decimal(d) && d.mantissa >= 0 && s@ == #[trigger] decimal_text(d)
                    ==> amount_view(r) == Some(d),
    {
        decimal_from_str(s)
    }

    /// The text of a number.
    pub fn text(&self) -> (r: String)
        ensures
            r@ == decimal_text(self@),
    {
        decimal_to_string(self)
    }

    pub fn is_positive(&self) -> (r: bool)
        ensures
            r == (self@.mantissa > 0),
    {
        self.mantissa > 0
    }

    pub fn less_than(&self, other: &Amount) -> (r: bool)
        ensures
            r == (units(self@) < units(other@)),
    {
        decimal_lt(self, other)
    }

    /// The sum, or nothing where it is too large.
    pub fn plus(&self, other: &Amount) -> (r: Option<Amount>)
        ensures
            amount_view(r) == decimal_sum(self@, other@),
    {
        decimal_add(self, other)
    }

    /// The difference, or nothing where it is too large.
    pub fn minus(&self, other: &Amount) -> (r: Option<Amount>)
        ensures
            amount_view(r) == decimal_difference(self@, other@),
    {
        decimal_sub(self, other)
    }

    /// The product, or nothing where it is too large.
    pub fn times(&self, other: &Amount) -> (r: Option<Amount>)
        ensures
            amount_view(r) == decimal_product(self@, other@),
    {
        decimal_mul(self, other)
    }
}

proof fn lemma_pow10_add(a: nat, b: nat)
    ensures
        pow10(a + b) == pow10(a) * pow10(b),
    decreases a,
{
    if a == 0 {
        assert(pow10(0) == 1);
        assert(pow10(a) * pow10(b) == pow10(b)) by (nonlinear_arith)
            requires
                pow10(a) == 1,
        ;
    } else {
        lemma_pow10_add((a - 1) as nat, b);
        assert(pow10(a + b) == 10 * pow10((a - 1) as nat + b));
        assert(10 * (pow10((a - 1) as nat) * pow10(b)) == (10 * pow10((a - 1) as nat)) * pow10(b))
            by (nonlinear_arith);
    }
}

pub proof fn lemma_pow10_positive(n: nat)
    ensures
        pow10(n) > 0,
    decreases n,
{
    if n > 0 {
        lemma_pow10_positive((n - 1) as nat);
    }
}

/// More digits behind the point do not change the value.
proof fn lemma_aligned_value(d: Dec, s: nat)
    requires
        d.scale <= s <= 28,
    ensures
        aligned(d, s) * pow10((28 - s) as nat) == units(d),
{
    let x = pow10((s - d.scale) as nat);
    let y = pow10((28 - s) as nat);
    lemma_pow10_add((s - d.scale) as nat, (28 - s) as nat);
    assert((s - d.scale) as nat + (28 - s) as nat == (28 - d.scale) as nat);
    assert((d.mantissa * x) * y == d.mantissa * (x * y)) by (nonlinear_arith);
}

/// The value of a sum is the sum of the values.
pub proof fn law_sum_adds_values(a: Dec, b: Dec)
    requires
        is_decimal(a),
        is_decimal(b),
    ensures
        units(exact_sum(a, b)) == units(a) + units(b),
{
    let s = larger(a.scale, b.scale);
    if a.mantissa == 0 {
        assert(units(a) == 0) by (nonlinear_arith)
            requires
                units(a) == a.mantissa * pow10((28 - a.scale) as nat),
                a.mantissa == 0,
        ;
    } else if b.mantissa == 0 {
        assert(units(b) == 0) by (nonlinear_arith)
            requires
                units(b) == b.mantissa * pow10((28 - b.scale) as nat),
                b.mantissa == 0,
        ;
    } else {
        lemma_aligned_value(a, s);
        lemma_aligned_value(b, s);
        let x = aligned(a, s);
        let y = aligned(b, s);
        let p = pow10((28 - s) as nat) as int;
        assert((x + y) * p == x * p + y * p) by (nonlinear_arith);
    }
}

/// The value of a difference is the difference of the values.
pub proof fn law_difference_subtracts_values(a: Dec, b: Dec)
    requires
        is_decimal(a),
        is_decimal(b),
    ensures
        units(exact_difference(a, b)) == units(a) - units(b),
{
    let n = Dec { mantissa: -b.mantissa, scale: b.scale };
    law_sum_adds_values(a, n);
    let p = pow10((28 - b.scale) as nat) as int;
    let m = b.mantissa;
    assert((-m) * p == -(m * p)) by (nonlinear_arith);
}

/// A number has the sign of its mantissa.
pub proof fn law_value_has_sign_of_mantissa(d: Dec)
    requires
        is_decimal(d),
    ensures
        units(d) > 0 <==> d.mantissa > 0,
        units(d) == 0 <==> d.mantissa == 0,
{
    lemma_pow10_positive((28 - d.scale) as nat);
    let p = pow10((28 - d.scale) as nat) as int;
    let m = d.mantissa;
    assert((m * p > 0 <==> m > 0) && (m * p == 0 <==> m == 0)) by (nonlinear_arith)
        requires
            p > 0,
    ;
}

/// The difference of two numbers that can be written with equally many digits, neither of them
/// negative, can always be held.
pub proof fn law_difference_of_alignable_is_exact(a: Dec, b: Dec)
    requires
        is_decimal(a),
        is_decimal(b),
        a.mantissa >= 0,
        b.mantissa >= 0,
        alignable(a, b),
    ensures
        difference_is_exact(a, b),
{
    let s = larger(a.scale, b.scale);
    lemma_pow10_positive((s - a.scale) as nat);
    lemma_pow10_positive((s - b.scale) as nat);
    let x = pow10((s - a.scale) as nat) as int;
    let y = pow10((s - b.scale) as nat) as int;
    let m = a.mantissa;
    let n = b.mantissa;
    assert(m * x >= 0) by (nonlinear_arith)
        requires
            m >= 0,
            x > 0,
    ;
    assert(n * y >= 0 && (-n) * y == -(n * y)) by (nonlinear_arith)
        requires
            n >= 0,
            y > 0,
    ;
}

/// A difference of two numbers that can be written with equally many digits, neither of them
/// negative, can be undone: the sum of it and what was taken away can be held.
pub proof fn law_difference_can_be_undone(a: Dec, b: Dec)
    requires
        is_decimal(a),
        is_decimal(b),
        a.mantissa > 0,
        b.mantissa > 0,
        alignable(a, b),
    ensures
        sum_is_exact(exact_difference(a, b), b),
{
    law_difference_of_alignable_is_exact(a, b);
    let s = larger(a.scale, b.scale);
    let d = exact_difference(a, b);
    let y = pow10((s - b.scale) as nat) as int;
    let n = b.mantissa;
    assert((-n) * y == -(n * y)) by (nonlinear_arith);
    assert(d.scale == s);
    let m = d.mantissa;
    let one = pow10((s - d.scale) as nat) as int;
    assert(one == 1);
    assert(m * one == m) by (nonlinear_arith)
        requires
            one == 1,
    ;
}

/// A value that may be missing says in contracts what it says where it is there.
pub proof fn law_missing_values_stay_missing(x: Amount)
    ensures
        amount_view(Some(x)) == Some(x@),
        amount_view(None) is None,
{
}

/// A sum, a difference or a product that can be held is the one of the values: nothing is rounded.
pub proof fn law_exact_results_have_the_right_value(a: Dec, b: Dec)
    requires
        is_decimal(a),
        is_decimal(b),
    ensures
        sum_is_exact(a, b) ==> decimal_sum(a, b) is Some && units(decimal_sum(a, b).unwrap()) == units(
            a,
        ) + units(b),
        difference_is_exact(a, b) ==> decimal_difference(a, b) is Some && units(
            decimal_difference(a, b).unwrap(),
        ) == units(a) - units(b),
        product_is_exact(a, b) ==> decimal_product(a, b) is Some && units(
            decimal_product(a, b).unwrap(),
        ) * pow10(28) == units(a) * units(b),
{
    law_sum_adds_values(a, b);
    law_difference_subtracts_values(a, b);
    if product_is_exact(a, b) {
        let m = a.mantissa;
        let n = b.mantissa;
        let x = (28 - a.scale) as nat;
        let y = (28 - b.scale) as nat;
        let z = (28 - (a.scale + b.scale)) as nat;
        lemma_pow10_add(x, y);
        lemma_pow10_add(z, 28);
        assert(x + y == z + 28);
        let px = pow10(x) as int;
        let py = pow10(y) as int;
        let pz = pow10(z) as int;
        let p = pow10(28) as int;
        assert(((m * n) * pz) * p == (m * px) * (n * py)) by (nonlinear_arith)
            requires
                pz * p == px * py,
        ;
    }
}

} // verus!
