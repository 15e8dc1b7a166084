//! An exact decimal value that takes part in the embedded language's
//! comparison and arithmetic.
//!
//! The arithmetic itself is `rust_decimal`'s. A `DecimalValue` holds the parts
//! of one of its numbers as plain integers: a sign, a 96-bit coefficient in
//! three words, and a scale. The number is the coefficient divided by ten to
//! the power of the scale.

use crate::error::{BridgeError, ErrorView};
use crate::text::{int_text, int_to_text};
use crate::value::{kind_name, outcome_view, Value, ValueView};
use rust_decimal::Decimal;
use std::cmp::Ordering;
use std::str::FromStr;
use vstd::prelude::*;

verus! {

/// The largest scale a decimal can carry.
pub const MAX_SCALE: u32 = 28;

/// Ten to the power of `n`.
pub open spec fn pow10(n: nat) -> nat
    decreases n,
{
    if n == 0 {
        1
    } else {
        10 * pow10((n - 1) as nat)
    }
}

/// How one number stands to another.
#[derive(Clone, Copy, Debug, PartialEq, Eq, Structural)]
pub enum Comparison {
    Less,
    Equal,
    Greater,
}

/// An immutable decimal number. Rust's `==` tells two representations
/// apart, such as `1.0` and `1.00`; `equals` compares the numbers.
#[derive(Clone, Copy, Debug, PartialEq, Eq)]
pub struct DecimalValue {
    negative: bool,
    hi: u32,
    mid: u32,
    lo: u32,
    scale: u32,
}

impl DecimalValue {
    /// Every decimal has a scale of at most `MAX_SCALE`.
    #[verifier::type_invariant]
    pub closed spec fn wf(self) -> bool {
        self.scale <= MAX_SCALE
    }

    /// Whether the sign is negative. Zero can carry either sign.
    pub closed spec fn sign_negative(self) -> bool {
        self.negative
    }

    /// The coefficient, without its sign.
    pub closed spec fn coefficient(self) -> nat {
        (self.lo as nat) + (self.mid as nat) * 0x1_0000_0000 + (self.hi as nat)
            * 0x1_0000_0000_0000_0000
    }

    /// The number of digits after the decimal point.
    pub closed spec fn exponent(self) -> nat {
        self.scale as nat
    }

    /// The coefficient with its sign.
    pub open spec fn signed_coefficient(self) -> int {
        if self.sign_negative() {
            -(self.coefficient() as int)
        } else {
            self.coefficient() as int
        }
    }

    /// The decimal with the given sign, coefficient and scale.
    pub closed spec fn from_spec_parts(negative: bool, coefficient: nat, scale: nat) -> DecimalValue {
        DecimalValue {
            negative,
            hi: ((coefficient / 0x1_0000_0000_0000_0000) % 0x1_0000_0000) as u32,
            mid: ((coefficient / 0x1_0000_0000) % 0x1_0000_0000) as u32,
            lo: (coefficient % 0x1_0000_0000) as u32,
            scale: scale as u32,
        }
    }

    /// The words that stand for this decimal where it is hashed: the three
    /// words of the coefficient, then the scale and the sign in one word.
    pub closed spec fn words(self) -> (u32, u32, u32, u32) {
        (self.lo, self.mid, self.hi, (self.scale << 16u32) | if self.negative {
            0x8000_0000u32
        } else {
            0u32
        })
    }
}

/// The three words of a coefficient are its digits in base 2^32.
proof fn lemma_words(lo: int, mid: int, hi: int)
    requires
        0 <= lo < 0x1_0000_0000,
        0 <= mid < 0x1_0000_0000,
        0 <= hi < 0x1_0000_0000,
    ensures
        (lo + mid * 0x1_0000_0000 + hi * 0x1_0000_0000_0000_0000) % 0x1_0000_0000 == lo,
        ((lo + mid * 0x1_0000_0000 + hi * 0x1_0000_0000_0000_0000) / 0x1_0000_0000)
            % 0x1_0000_0000 == mid,
        ((lo + mid * 0x1_0000_0000 + hi * 0x1_0000_0000_0000_0000) / 0x1_0000_0000_0000_0000)
            % 0x1_0000_0000 == hi,
        0 <= lo + mid * 0x1_0000_0000 + hi * 0x1_0000_0000_0000_0000
            < 0x1_0000_0000_0000_0000_0000_0000,
{
    let c = lo + mid * 0x1_0000_0000 + hi * 0x1_0000_0000_0000_0000;
    vstd::arithmetic::div_mod::lemma_fundamental_div_mod_converse(
        c,
        0x1_0000_0000,
        mid + hi * 0x1_0000_0000,
        lo,
    );
    vstd::arithmetic::div_mod::lemma_fundamental_div_mod_converse(
        mid + hi * 0x1_0000_0000,
        0x1_0000_0000,
        hi,
        mid,
    );
    vstd::arithmetic::div_mod::lemma_fundamental_div_mod_converse(
        c,
        0x1_0000_0000_0000_0000,
        hi,
        lo + mid * 0x1_0000_0000,
    );
    vstd::arithmetic::div_mod::lemma_fundamental_div_mod_converse(hi, 0x1_0000_0000, 0, hi);
}

/// The words of a coefficient below 2^96 put it together again.
proof fn lemma_coefficient_words(c: int)
    requires
        0 <= c < 0x1_0000_0000_0000_0000_0000_0000,
    ensures
        c == c % 0x1_0000_0000 + ((c / 0x1_0000_0000) % 0x1_0000_0000) * 0x1_0000_0000 + ((c
            / 0x1_0000_0000_0000_0000) % 0x1_0000_0000) * 0x1_0000_0000_0000_0000,
{
    let low = c % 0x1_0000_0000;
    let rest = c / 0x1_0000_0000;
    let middle = rest % 0x1_0000_0000;
    let high = rest / 0x1_0000_0000;
    assert(c == rest * 0x1_0000_0000 + low);
    assert(rest == high * 0x1_0000_0000 + middle);
    assert(0 <= high < 0x1_0000_0000);
    vstd::arithmetic::div_mod::lemma_fundamental_div_mod_converse(
        c,
        0x1_0000_0000_0000_0000,
        high,
        low + middle * 0x1_0000_0000,
    );
    vstd::arithmetic::div_mod::lemma_fundamental_div_mod_converse(high, 0x1_0000_0000, 0, high);
}

/// A decimal is its sign, its coefficient and its scale, and nothing more.
pub proof fn lemma_parts_determine(d: DecimalValue)
    ensures
        DecimalValue::from_spec_parts(d.sign_negative(), d.coefficient(), d.exponent()) == d,
        d.coefficient() < 0x1_0000_0000_0000_0000_0000_0000,
{
    lemma_words(d.lo as int, d.mid as int, d.hi as int);
}

/// The parts of the decimal that `from_spec_parts` makes.
pub proof fn lemma_from_spec_parts(negative: bool, coefficient: nat, scale: nat)
    requires
        coefficient < 0x1_0000_0000_0000_0000_0000_0000,
        scale <= MAX_SCALE,
    ensures
        DecimalValue::from_spec_parts(negative, coefficient, scale).sign_negative() == negative,
        DecimalValue::from_spec_parts(negative, coefficient, scale).coefficient() == coefficient,
        DecimalValue::from_spec_parts(negative, coefficient, scale).exponent() == scale,
        DecimalValue::from_spec_parts(negative, coefficient, scale).wf(),
{
    lemma_coefficient_words(coefficient as int);
}

impl DecimalValue {
    /// The decimal with the given parts: the three words of the
    /// coefficient from the lowest, the sign, and the scale. There is none
    /// where the scale is above `MAX_SCALE`.
    pub fn from_parts(lo: u32, mid: u32, hi: u32, negative: bool, scale: u32) -> (r: Option<
        DecimalValue,
    >)
        ensures
            match r {
                Some(d) => {
                    &&& scale <= MAX_SCALE
                    &&& d.sign_negative() == negative
                    &&& d.coefficient() == lo + mid * 0x1_0000_0000 + hi * 0x1_0000_0000_0000_0000
                    &&& d.exponent() == scale
                },
                None => scale > MAX_SCALE,
            },
    {
        if scale <= MAX_SCALE {
            Some(DecimalValue { negative, hi, mid, lo, scale })
        } else {
            None
        }
    }

    /// Whether the sign is negative.
    pub fn is_sign_negative(&self) -> (r: bool)
        ensures
            r == self.sign_negative(),
    {
        self.negative
    }

    /// The number of digits after the decimal point.
    pub fn scale(&self) -> (r: u32)
        ensures
            r == self.exponent(),
            r <= MAX_SCALE,
    {
        proof {
            use_type_invariant(self);
        }
        self.scale
    }

    /// The coefficient with its sign.
    pub fn mantissa(&self) -> (r: i128)
        ensures
            r == self.signed_coefficient(),
    {
        let magnitude: i128 = (self.lo as i128) + (self.mid as i128) * 0x1_0000_0000 + (
        self.hi as i128) * 0x1_0000_0000_0000_0000;
        if self.negative {
            -magnitude
        } else {
            magnitude
        }
    }
}

/// What `rust_decimal` reads `text` as: the decimal, or its message where it
/// rejects the text.
pub uninterp spec fn decimal_parsed(text: Seq<char>) -> Result<DecimalValue, Seq<char>>;

/// The text that `rust_decimal` displays a decimal as.
pub uninterp spec fn decimal_display(d: DecimalValue) -> Seq<char>;

/// What `rust_decimal` gives for `a + b`: `None` where the sum is out of
/// range.
pub uninterp spec fn decimal_sum(a: DecimalValue, b: DecimalValue) -> Option<DecimalValue>;

/// What `rust_decimal` gives for `a - b`: `None` where the difference is out
/// of range.
pub uninterp spec fn decimal_difference(a: DecimalValue, b: DecimalValue) -> Option<DecimalValue>;

/// What `rust_decimal` gives for `a * b`: `None` where the product is out of
/// range.
pub uninterp spec fn decimal_product(a: DecimalValue, b: DecimalValue) -> Option<DecimalValue>;

/// What `rust_decimal` gives for `a / b`: `None` where `b` is zero or the
/// quotient is out of range.
pub uninterp spec fn decimal_quotient(a: DecimalValue, b: DecimalValue) -> Option<DecimalValue>;

/// What `rust_decimal` gives for `a % b`: `None` where `b` is zero or the
/// remainder is out of range.
pub uninterp spec fn decimal_remainder(a: DecimalValue, b: DecimalValue) -> Option<DecimalValue>;

/// How the number `a` stands to the number `b`. Two decimals of different
/// scale are brought to a common one; zero equals zero whatever its sign.
pub open spec fn numeric_order(a: DecimalValue, b: DecimalValue) -> Comparison {
    let x = a.signed_coefficient() * pow10(b.exponent());
    let y = b.signed_coefficient() * pow10(a.exponent());
    if x < y {
        Comparison::Less
    } else if x == y {
        Comparison::Equal
    } else {
        Comparison::Greater
    }
}

/// The largest whole number that is not above `a`, with scale zero and the
/// sign of `a`.
pub open spec fn floor_of(a: DecimalValue) -> DecimalValue {
    let power = pow10(a.exponent());
    let whole = a.coefficient() / power;
    let step: nat = if a.sign_negative() && a.coefficient() % power != 0 {
        1
    } else {
        0
    };
    DecimalValue::from_spec_parts(a.sign_negative(), whole + step, 0)
}

/// A coefficient and scale without the trailing zeros that the scale allows
/// to drop.
pub open spec fn stripped(coefficient: nat, scale: nat) -> (nat, nat)
    decreases scale,
{
    if scale > 0 && coefficient % 10 == 0 {
        stripped(coefficient / 10, (scale - 1) as nat)
    } else {
        (coefficient, scale)
    }
}

/// The one form that all decimals of the same number share: no trailing
/// zeros after the point, and zero as positive zero of scale zero.
pub open spec fn normal_form(a: DecimalValue) -> DecimalValue {
    if a.coefficient() == 0 {
        DecimalValue::from_spec_parts(false, 0, 0)
    } else {
        let (coefficient, scale) = stripped(a.coefficient(), a.exponent());
        DecimalValue::from_spec_parts(a.sign_negative(), coefficient, scale)
    }
}

/// `Decimal::from_str`. Claims that the outcome is `decimal_parsed` of the
/// text, with the message that the error displays, and that a decimal that
/// comes out has a scale within range.
#[verifier::external_body]
fn parse_decimal(text: &str) -> (r: Result<DecimalValue, String>)
    ensures
        match r {
            Ok(d) => decimal_parsed(text@) == Ok::<DecimalValue, Seq<char>>(d) && d.wf(),
            Err(m) => decimal_parsed(text@) == Err::<DecimalValue, Seq<char>>(m@),
        },
{
    match Decimal::from_str(text) {
        Ok(d) => {
            let u = d.unpack();
            Ok(DecimalValue { negative: u.negative, hi: u.hi, mid: u.mid, lo: u.lo, scale: u.scale })
        },
        Err(e) => Err(e.to_string()),
    }
}

/// `Decimal::to_string`. Claims that the text is `decimal_display` of the
/// decimal.
#[verifier::external_body]
fn display_decimal(a: &DecimalValue) -> (r: String)
    requires
        a.wf(),
    ensures
        r@ == decimal_display(*a),
{
    let mut x = Decimal::from_parts(a.lo, a.mid, a.hi, false, a.scale);
    x.set_sign_negative(a.negative);
    x.to_string()
}

/// `Decimal::checked_add`. Claims that the outcome is `decimal_sum` of the
/// operands, and that a decimal that comes out has a scale within range.
#[verifier::external_body]
fn checked_sum(a: &DecimalValue, b: &DecimalValue) -> (r: Option<DecimalValue>)
    requires
        a.wf(),
        b.wf(),
    ensures
        r == decimal_sum(*a, *b),
        r matches Some(d) ==> d.wf(),
{
    let mut x = Decimal::from_parts(a.lo, a.mid, a.hi, false, a.scale);
    x.set_sign_negative(a.negative);
    let mut y = Decimal::from_parts(b.lo, b.mid, b.hi, false, b.scale);
    y.set_sign_negative(b.negative);
    match x.checked_add(y) {
        Some(d) => {
            let u = d.unpack();
            Some(DecimalValue { negative: u.negative, hi: u.hi, mid: u.mid, lo: u.lo, scale: u.scale })
        },
        None => None,
    }
}

/// `Decimal::checked_sub`. Claims that the outcome is `decimal_difference`
/// of the operands, and that a decimal that comes out has a scale within
/// range.
#[verifier::external_body]
fn checked_difference(a: &DecimalValue, b: &DecimalValue) -> (r: Option<DecimalValue>)
    requires
        a.wf(),
        b.wf(),
    ensures
        r == decimal_difference(*a, *b),
        r matches Some(d) ==> d.wf(),
{
    let mut x = Decimal::from_parts(a.lo, a.mid, a.hi, false, a.scale);
    x.set_sign_negative(a.negative);
    let mut y = Decimal::from_parts(b.lo, b.mid, b.hi, false, b.scale);
    y.set_sign_negative(b.negative);
    match x.checked_sub(y) {
        Some(d) => {
            let u = d.unpack();
            Some(DecimalValue { negative: u.negative, hi: u.hi, mid: u.mid, lo: u.lo, scale: u.scale })
        },
        None => None,
    }
}

/// `Decimal::checked_mul`. Claims that the outcome is `decimal_product` of
/// the operands, and that a decimal that comes out has a scale within range.
#[verifier::external_body]
fn checked_product(a: &DecimalValue, b: &DecimalValue) -> (r: Option<DecimalValue>)
    requires
        a.wf(),
        b.wf(),
    ensures
        r == decimal_product(*a, *b),
        r matches Some(d) ==> d.wf(),
{
    let mut x = Decimal::from_parts(a.lo, a.mid, a.hi, false, a.scale);
    x.set_sign_negative(a.negative);
    let mut y = Decimal::from_parts(b.lo, b.mid, b.hi, false, b.scale);
    y.set_sign_negative(b.negative);
    match x.checked_mul(y) {
        Some(d) => {
            let u = d.unpack();
            Some(DecimalValue { negative: u.negative, hi: u.hi, mid: u.mid, lo: u.lo, scale: u.scale })
        },
        None => None,
    }
}

/// `Decimal::checked_div`. Claims that the outcome is `decimal_quotient` of
/// the operands, and that a decimal that comes out has a scale within range.
#[verifier::external_body]
fn checked_quotient(a: &DecimalValue, b: &DecimalValue) -> (r: Option<DecimalValue>)
    requires
        a.wf(),
        b.wf(),
    ensures
        r == decimal_quotient(*a, *b),
        r matches Some(d) ==> d.wf(),
{
    let mut x = Decimal::from_parts(a.lo, a.mid, a.hi, false, a.scale);
    x.set_sign_negative(a.negative);
    let mut y = Decimal::from_parts(b.lo, b.mid, b.hi, false, b.scale);
    y.set_sign_negative(b.negative);
    match x.checked_div(y) {
        Some(d) => {
            let u = d.unpack();
            Some(DecimalValue { negative: u.negative, hi: u.hi, mid: u.mid, lo: u.lo, scale: u.scale })
        },
        None => None,
    }
}

/// `Decimal::checked_rem`. Claims that the outcome is `decimal_remainder` of
/// the operands, and that a decimal that comes out has a scale within range.
#[verifier::external_body]
fn checked_remainder(a: &DecimalValue, b: &DecimalValue) -> (r: Option<DecimalValue>)
    requires
        a.wf(),
        b.wf(),
    ensures
        r == decimal_remainder(*a, *b),
        r matches Some(d) ==> d.wf(),
{
    let mut x = Decimal::from_parts(a.lo, a.mid, a.hi, false, a.scale);
    x.set_sign_negative(a.negative);
    let mut y = Decimal::from_parts(b.lo, b.mid, b.hi, false, b.scale);
    y.set_sign_negative(b.negative);
    match x.checked_rem(y) {
        Some(d) => {
            let u = d.unpack();
            Some(DecimalValue { negative: u.negative, hi: u.hi, mid: u.mid, lo: u.lo, scale: u.scale })
        },
        None => None,
    }
}

/// `Decimal::floor`. Claims that the result is the largest whole number not
/// above the operand, with scale zero and the operand's sign.
#[verifier::external_body]
fn floor_decimal(a: &DecimalValue) -> (r: DecimalValue)
    requires
        a.wf(),
    ensures
        r == floor_of(*a),
        r.wf(),
{
    let mut x = Decimal::from_parts(a.lo, a.mid, a.hi, false, a.scale);
    x.set_sign_negative(a.negative);
    let u = x.floor().unpack();
    DecimalValue { negative: u.negative, hi: u.hi, mid: u.mid, lo: u.lo, scale: u.scale }
}

/// `Decimal::normalize`. Claims that the result has the operand's number
/// without trailing zeros after the point, and that zero comes out as
/// positive zero of scale zero.
#[verifier::external_body]
fn normalize_decimal(a: &DecimalValue) -> (r: DecimalValue)
    requires
        a.wf(),
    ensures
        r == normal_form(*a),
        r.wf(),
{
    let mut x = Decimal::from_parts(a.lo, a.mid, a.hi, false, a.scale);
    x.set_sign_negative(a.negative);
    let u = x.normalize().unpack();
    DecimalValue { negative: u.negative, hi: u.hi, mid: u.mid, lo: u.lo, scale: u.scale }
}

/// `Ord::cmp` of `Decimal`. Claims that it orders by the number, whatever
/// the scales, and takes zero of either sign as equal.
#[verifier::external_body]
fn order_decimals(a: &DecimalValue, b: &DecimalValue) -> (r: Comparison)
    requires
        a.wf(),
        b.wf(),
    ensures
        r == numeric_order(*a, *b),
{
    let mut x = Decimal::from_parts(a.lo, a.mid, a.hi, false, a.scale);
    x.set_sign_negative(a.negative);
    let mut y = Decimal::from_parts(b.lo, b.mid, b.hi, false, b.scale);
    y.set_sign_negative(b.negative);
    match x.cmp(&y) {
        Ordering::Less => Comparison::Less,
        Ordering::Equal => Comparison::Equal,
        Ordering::Greater => Comparison::Greater,
    }
}

/// `PartialEq::eq` of `Decimal`. Claims that two decimals are equal where
/// their numbers are, whatever the scales and the sign of zero.
#[verifier::external_body]
fn same_number(a: &DecimalValue, b: &DecimalValue) -> (r: bool)
    requires
        a.wf(),
        b.wf(),
    ensures
        r == (numeric_order(*a, *b) == Comparison::Equal),
{
    let mut x = Decimal::from_parts(a.lo, a.mid, a.hi, false, a.scale);
    x.set_sign_negative(a.negative);
    let mut y = Decimal::from_parts(b.lo, b.mid, b.hi, false, b.scale);
    y.set_sign_negative(b.negative);
    x == y
}

/// The error of an operator of a decimal that met an operand of the type
/// `other_type`.
pub open spec fn operation_error(op: Seq<char>, other_type: Seq<char>) -> ErrorView {
    ErrorView::OperationNotSupported { op, left_type: "rust_decimal"@, right_type: other_type }
}

/// The error of the constructor that met an argument of the type `arg_type`.
pub open spec fn constructor_error(arg_type: Seq<char>) -> ErrorView {
    ErrorView::ConstructorTypeError { op: "make_decimal()"@, arg_type }
}

/// The decimal that an operand of an operator stands for: a decimal is
/// itself, an integer is what its exact base-10 text reads as. Anything
/// else, and an integer that no decimal can hold, gives the name of its type.
pub open spec fn operand_decimal(v: ValueView) -> Result<DecimalValue, Seq<char>> {
    match v {
        ValueView::Decimal(d) => Ok(d),
        ValueView::Int(n) => match decimal_parsed(int_text(n)) {
            Ok(d) => Ok(d),
            Err(_) => Err(kind_name(v)),
        },
        _ => Err(kind_name(v)),
    }
}

/// The operand of the operator `op`, or the operator's error.
pub open spec fn operand_for(op: Seq<char>, v: ValueView) -> Result<DecimalValue, ErrorView> {
    match operand_decimal(v) {
        Ok(d) => Ok(d),
        Err(name) => Err(operation_error(op, name)),
    }
}

/// What the constructor makes of its argument: a string is read as a
/// decimal literal, a decimal is copied, an integer goes by its exact
/// base-10 text. Everything else is refused, a float among it.
pub open spec fn constructed(v: ValueView) -> Result<DecimalValue, ErrorView> {
    match v {
        ValueView::Str(s) => match decimal_parsed(s) {
            Ok(d) => Ok(d),
            Err(_) => Err(constructor_error("string"@)),
        },
        _ => match operand_decimal(v) {
            Ok(d) => Ok(d),
            Err(name) => Err(constructor_error(name)),
        },
    }
}

/// The outcome of arithmetic: the decimal as a value, or an overflow.
pub open spec fn arithmetic_outcome(op: Seq<char>, result: Option<DecimalValue>) -> Result<
    ValueView,
    ErrorView,
> {
    match result {
        Some(d) => Ok(ValueView::Decimal(d)),
        None => Err(ErrorView::Overflow { op }),
    }
}

/// The view of an outcome that is a decimal or an error.
pub open spec fn decimal_outcome_view(r: Result<DecimalValue, BridgeError>) -> Result<
    DecimalValue,
    ErrorView,
> {
    match r {
        Ok(d) => Ok(d),
        Err(e) => Err(e@),
    }
}

/// The view of an outcome that is a decimal or the name of a type.
pub open spec fn named_outcome_view(r: Result<DecimalValue, String>) -> Result<
    DecimalValue,
    Seq<char>,
> {
    match r {
        Ok(d) => Ok(d),
        Err(name) => Err(name@),
    }
}

/// The decimal with the opposite sign.
pub open spec fn negated(a: DecimalValue) -> DecimalValue {
    DecimalValue::from_spec_parts(!a.sign_negative(), a.coefficient(), a.exponent())
}

/// The error of the operator `op` of a decimal that met an operand of the
/// type `other_type`.
pub fn decimal_operation_error(op: &str, other_type: &str) -> (e: BridgeError)
    ensures
        e@ == operation_error(op@, other_type@),
{
    BridgeError::OperationNotSupported {
        op: op.to_owned(),
        left_type: "rust_decimal".to_owned(),
        right_type: other_type.to_owned(),
    }
}

/// The error of the constructor that met an argument of the type
/// `arg_type`.
pub fn decimal_constructor_error(arg_type: &str) -> (e: BridgeError)
    ensures
        e@ == constructor_error(arg_type@),
{
    BridgeError::ConstructorTypeError {
        op: "make_decimal()".to_owned(),
        arg_type: arg_type.to_owned(),
    }
}

/// The decimal that `value` stands for as an operand, or the name of its
/// type where it stands for none.
pub fn try_decimal_from_value(value: &Value) -> (r: Result<DecimalValue, String>)
    ensures
        named_outcome_view(r) == operand_decimal(value@),
{
    match value {
        Value::Decimal(existing) => Ok(*existing),
        Value::Int(n) => {
            let text = int_to_text(*n);
            match parse_decimal(text.as_str()) {
                Ok(d) => Ok(d),
                Err(_) => Err(value.get_type()),
            }
        },
        _ => Err(value.get_type()),
    }
}

/// The operand of the operator `op`.
pub fn decimal_from_value(value: &Value, op: &str) -> (r: Result<DecimalValue, BridgeError>)
    ensures
        decimal_outcome_view(r) == operand_for(op@, value@),
{
    match try_decimal_from_value(value) {
        Ok(d) => Ok(d),
        Err(name) => Err(decimal_operation_error(op, name.as_str())),
    }
}

/// The decimal that the constructor makes of `value`.
pub fn decimal_from_constructor(value: &Value) -> (r: Result<DecimalValue, BridgeError>)
    ensures
        decimal_outcome_view(r) == constructed(value@),
{
    match value {
        Value::Str(text) => match parse_decimal(text.as_str()) {
            Ok(d) => Ok(d),
            Err(_) => Err(decimal_constructor_error("string")),
        },
        _ => match try_decimal_from_value(value) {
            Ok(d) => Ok(d),
            Err(name) => Err(decimal_constructor_error(name.as_str())),
        },
    }
}

/// The decimal as a value of the embedded language.
pub fn alloc_decimal(decimal: DecimalValue) -> (v: Value)
    ensures
        v@ == ValueView::Decimal(decimal),
{
    Value::Decimal(decimal)
}

/// The constructor of decimals that the embedded language calls.
pub fn make_decimal(value: &Value) -> (r: Result<Value, BridgeError>)
    ensures
        outcome_view(r) == match constructed(value@) {
            Ok(d) => Ok::<ValueView, ErrorView>(ValueView::Decimal(d)),
            Err(e) => Err::<ValueView, ErrorView>(e),
        },
{
    match decimal_from_constructor(value) {
        Ok(decimal) => Ok(alloc_decimal(decimal)),
        Err(e) => Err(e),
    }
}

fn arithmetic_result(op: &str, result: Option<DecimalValue>) -> (r: Result<Value, BridgeError>)
    ensures
        outcome_view(r) == arithmetic_outcome(op@, result),
{
    match result {
        Some(d) => Ok(alloc_decimal(d)),
        None => Err(BridgeError::Overflow { op: op.to_owned() }),
    }
}

impl DecimalValue {
    /// What `==` gives against `other`: whether the numbers are equal where
    /// `other` is a decimal or an integer that a decimal can hold, and
    /// `false` for everything else.
    pub open spec fn spec_equals(self, other: ValueView) -> bool {
        match operand_decimal(other) {
            Ok(b) => numeric_order(self, b) == Comparison::Equal,
            Err(_) => false,
        }
    }

    /// What the ordering gives against `other`.
    pub open spec fn spec_compare(self, other: ValueView) -> Result<Comparison, ErrorView> {
        match operand_for("compare"@, other) {
            Ok(b) => Ok(numeric_order(self, b)),
            Err(e) => Err(e),
        }
    }

    /// What `+` gives with the decimal on the left.
    pub open spec fn spec_add(self, rhs: ValueView) -> Result<ValueView, ErrorView> {
        match operand_for("+"@, rhs) {
            Ok(b) => arithmetic_outcome("+"@, decimal_sum(self, b)),
            Err(e) => Err(e),
        }
    }

    /// What `+` gives with the decimal on the right.
    pub open spec fn spec_radd(self, lhs: ValueView) -> Result<ValueView, ErrorView> {
        match operand_for("+"@, lhs) {
            Ok(a) => arithmetic_outcome("+"@, decimal_sum(a, self)),
            Err(e) => Err(e),
        }
    }

    /// What `-` gives.
    pub open spec fn spec_sub(self, rhs: ValueView) -> Result<ValueView, ErrorView> {
        match operand_for("-"@, rhs) {
            Ok(b) => arithmetic_outcome("-"@, decimal_difference(self, b)),
            Err(e) => Err(e),
        }
    }

    /// What `*` gives with the decimal on the left.
    pub open spec fn spec_mul(self, rhs: ValueView) -> Result<ValueView, ErrorView> {
        match operand_for("*"@, rhs) {
            Ok(b) => arithmetic_outcome("*"@, decimal_product(self, b)),
            Err(e) => Err(e),
        }
    }

    /// What `*` gives with the decimal on the right.
    pub open spec fn spec_rmul(self, lhs: ValueView) -> Result<ValueView, ErrorView> {
        match operand_for("*"@, lhs) {
            Ok(a) => arithmetic_outcome("*"@, decimal_product(a, self)),
            Err(e) => Err(e),
        }
    }

    /// What `/` gives: a zero divisor is refused before anything is
    /// computed.
    pub open spec fn spec_div(self, rhs: ValueView) -> Result<ValueView, ErrorView> {
        match operand_for("/"@, rhs) {
            Ok(b) => if b.coefficient() == 0 {
                Err(ErrorView::DivisionByZero)
            } else {
                arithmetic_outcome("/"@, decimal_quotient(self, b))
            },
            Err(e) => Err(e),
        }
    }

    /// What `//` gives: the quotient, rounded toward negative infinity.
    pub open spec fn spec_floor_div(self, rhs: ValueView) -> Result<ValueView, ErrorView> {
        match operand_for("//"@, rhs) {
            Ok(b) => if b.coefficient() == 0 {
                Err(ErrorView::DivisionByZero)
            } else {
                match decimal_quotient(self, b) {
                    Some(q) => Ok(ValueView::Decimal(floor_of(q))),
                    None => Err(ErrorView::Overflow { op: "//"@ }),
                }
            },
            Err(e) => Err(e),
        }
    }

    /// What `%` gives.
    pub open spec fn spec_percent(self, rhs: ValueView) -> Result<ValueView, ErrorView> {
        match operand_for("%"@, rhs) {
            Ok(b) => if b.coefficient() == 0 {
                Err(ErrorView::DivisionByZero)
            } else {
                arithmetic_outcome("%"@, decimal_remainder(self, b))
            },
            Err(e) => Err(e),
        }
    }

    /// Whether the number is zero.
    pub fn is_zero(&self) -> (r: bool)
        ensures
            r == (self.coefficient() == 0),
    {
        self.lo == 0 && self.mid == 0 && self.hi == 0
    }

    /// `==` of the embedded language. It never fails: an operand that is
    /// neither a decimal nor an integer is unequal.
    pub fn equals(&self, other: &Value) -> (r: Result<bool, BridgeError>)
        ensures
            r matches Ok(b) && b == self.spec_equals(other@),
            !(other@ is Decimal) && !(other@ is Int) ==> r == Ok::<bool, BridgeError>(false),
    {
        match decimal_from_value(other, "==") {
            Ok(rhs) => {
                proof {
                    use_type_invariant(self);
                    use_type_invariant(&rhs);
                }
                Ok(same_number(self, &rhs))
            },
            Err(_) => Ok(false),
        }
    }

    /// The ordering of the embedded language: by the number. It fails on an
    /// operand that is neither a decimal nor an integer.
    pub fn compare(&self, other: &Value) -> (r: Result<Comparison, BridgeError>)
        ensures
            match r {
                Ok(c) => self.spec_compare(other@) == Ok::<Comparison, ErrorView>(c),
                Err(e) => self.spec_compare(other@) == Err::<Comparison, ErrorView>(e@),
            },
    {
        match decimal_from_value(other, "compare") {
            Ok(rhs) => {
                proof {
                    use_type_invariant(self);
                    use_type_invariant(&rhs);
                }
                Ok(order_decimals(self, &rhs))
            },
            Err(e) => Err(e),
        }
    }

    /// Truthiness: zero is false, everything else true.
    pub fn to_bool(&self) -> (r: bool)
        ensures
            r == (self.coefficient() != 0),
    {
        !self.is_zero()
    }

    /// Unary plus: the same decimal, as a new value.
    pub fn plus(&self) -> (r: Result<Value, BridgeError>)
        ensures
            r matches Ok(v) && v@ == ValueView::Decimal(*self),
    {
        Ok(alloc_decimal(*self))
    }

    /// Unary minus: the decimal with the opposite sign, as a new value.
    /// Zero changes its sign as any other number does.
    pub fn minus(&self) -> (r: Result<Value, BridgeError>)
        ensures
            r matches Ok(v) && v@ == ValueView::Decimal(negated(*self)),
    {
        proof {
            use_type_invariant(self);
            lemma_words(self.lo as int, self.mid as int, self.hi as int);
        }
        let opposite = DecimalValue {
            negative: !self.negative,
            hi: self.hi,
            mid: self.mid,
            lo: self.lo,
            scale: self.scale,
        };
        Ok(alloc_decimal(opposite))
    }

    /// `self + rhs`.
    pub fn add(&self, rhs: &Value) -> (r: Option<Result<Value, BridgeError>>)
        ensures
            r matches Some(outcome) && outcome_view(outcome) == self.spec_add(rhs@),
    {
        Some(
            match decimal_from_value(rhs, "+") {
                Ok(rhs) => {
                    proof {
                        use_type_invariant(self);
                        use_type_invariant(&rhs);
                    }
                    arithmetic_result("+", checked_sum(self, &rhs))
                },
                Err(e) => Err(e),
            },
        )
    }

    /// `lhs + self`, for an integer on the left.
    pub fn radd(&self, lhs: &Value) -> (r: Option<Result<Value, BridgeError>>)
        ensures
            r matches Some(outcome) && outcome_view(outcome) == self.spec_radd(lhs@),
    {
        Some(
            match decimal_from_value(lhs, "+") {
                Ok(lhs) => {
                    proof {
                        use_type_invariant(self);
                        use_type_invariant(&lhs);
                    }
                    arithmetic_result("+", checked_sum(&lhs, self))
                },
                Err(e) => Err(e),
            },
        )
    }

    /// `self - rhs`.
    pub fn sub(&self, rhs: &Value) -> (r: Result<Value, BridgeError>)
        ensures
            outcome_view(r) == self.spec_sub(rhs@),
    {
        match decimal_from_value(rhs, "-") {
            Ok(rhs) => {
                proof {
                    use_type_invariant(self);
                    use_type_invariant(&rhs);
                }
                arithmetic_result("-", checked_difference(self, &rhs))
            },
            Err(e) => Err(e),
        }
    }

    /// `self * rhs`.
    pub fn mul(&self, rhs: &Value) -> (r: Option<Result<Value, BridgeError>>)
        ensures
            r matches Some(outcome) && outcome_view(outcome) == self.spec_mul(rhs@),
    {
        Some(
            match decimal_from_value(rhs, "*") {
                Ok(rhs) => {
                    proof {
                        use_type_invariant(self);
                        use_type_invariant(&rhs);
                    }
                    arithmetic_result("*", checked_product(self, &rhs))
                },
                Err(e) => Err(e),
            },
        )
    }

    /// `lhs * self`, for an integer on the left.
    pub fn rmul(&self, lhs: &Value) -> (r: Option<Result<Value, BridgeError>>)
        ensures
            r matches Some(outcome) && outcome_view(outcome) == self.spec_rmul(lhs@),
    {
        Some(
            match decimal_from_value(lhs, "*") {
                Ok(lhs) => {
                    proof {
                        use_type_invariant(self);
                        use_type_invariant(&lhs);
                    }
                    arithmetic_result("*", checked_product(&lhs, self))
                },
                Err(e) => Err(e),
            },
        )
    }

    /// `self / rhs`.
    pub fn div(&self, rhs: &Value) -> (r: Result<Value, BridgeError>)
        ensures
            outcome_view(r) == self.spec_div(rhs@),
    {
        let rhs = match decimal_from_value(rhs, "/") {
            Ok(rhs) => rhs,
            Err(e) => {
                return Err(e);
            },
        };
        if rhs.is_zero() {
            return Err(BridgeError::DivisionByZero);
        }
        proof {
            use_type_invariant(self);
            use_type_invariant(&rhs);
        }
        arithmetic_result("/", checked_quotient(self, &rhs))
    }

    /// `self // rhs`: the quotient, rounded toward negative infinity.
    pub fn floor_div(&self, rhs: &Value) -> (r: Result<Value, BridgeError>)
        ensures
            outcome_view(r) == self.spec_floor_div(rhs@),
    {
        let rhs = match decimal_from_value(rhs, "//") {
            Ok(rhs) => rhs,
            Err(e) => {
                return Err(e);
            },
        };
        if rhs.is_zero() {
            return Err(BridgeError::DivisionByZero);
        }
        proof {
            use_type_invariant(self);
            use_type_invariant(&rhs);
        }
        match checked_quotient(self, &rhs) {
            Some(division) => Ok(alloc_decimal(floor_decimal(&division))),
            None => Err(BridgeError::Overflow { op: "//".to_owned() }),
        }
    }

    /// `self % rhs`.
    pub fn percent(&self, rhs: &Value) -> (r: Result<Value, BridgeError>)
        ensures
            outcome_view(r) == self.spec_percent(rhs@),
    {
        let rhs = match decimal_from_value(rhs, "%") {
            Ok(rhs) => rhs,
            Err(e) => {
                return Err(e);
            },
        };
        if rhs.is_zero() {
            return Err(BridgeError::DivisionByZero);
        }
        proof {
            use_type_invariant(self);
            use_type_invariant(&rhs);
        }
        arithmetic_result("%", checked_remainder(self, &rhs))
    }

    /// The words to hash: those of the form that all decimals of the same
    /// number share.
    pub fn hash_words(&self) -> (r: (u32, u32, u32, u32))
        ensures
            r == normal_form(*self).words(),
    {
        proof {
            use_type_invariant(self);
        }
        let n = normalize_decimal(self);
        let sign: u32 = if n.negative {
            0x8000_0000u32
        } else {
            0u32
        };
        (n.lo, n.mid, n.hi, (n.scale << 16u32) | sign)
    }

    /// The text of the decimal.
    pub fn to_text(&self) -> (r: String)
        ensures
            r@ == decimal_display(*self),
    {
        proof {
            use_type_invariant(self);
        }
        display_decimal(self)
    }
}

/// The view of an optional name.
pub open spec fn name_view(name: Option<String>) -> Option<Seq<char>> {
    match name {
        Some(s) => Some(s@),
        None => None,
    }
}

/// Whether a class of the host, by the names of its module and of itself,
/// is the host's own decimal.
pub open spec fn is_host_decimal(module_name: Option<Seq<char>>, class_name: Option<Seq<char>>) -> bool {
    module_name == Some("decimal"@) && class_name == Some("Decimal"@)
}

/// What a host object becomes, given its class and its text: a decimal of
/// the host is read from its text, and any other object is left to the
/// general conversion.
pub open spec fn host_decimal(
    module_name: Option<Seq<char>>,
    class_name: Option<Seq<char>>,
    value_str: Seq<char>,
) -> Result<Option<ValueView>, ErrorView> {
    if is_host_decimal(module_name, class_name) {
        match decimal_parsed(value_str) {
            Ok(d) => Ok(Some(ValueView::Decimal(d))),
            Err(message) => Err(ErrorView::InvalidDecimal { message }),
        }
    } else {
        Ok(None)
    }
}

/// The view of what `python_to_decimal` returns.
pub open spec fn host_decimal_view(r: Result<Option<Value>, BridgeError>) -> Result<
    Option<ValueView>,
    ErrorView,
> {
    match r {
        Ok(Some(v)) => Ok(Some(v@)),
        Ok(None) => Ok(None),
        Err(e) => Err(e@),
    }
}

/// Whether the class with these names is the host's decimal. The text of an
/// object needs to be taken only where this holds.
pub fn is_python_decimal(module_name: &Option<String>, class_name: &Option<String>) -> (r: bool)
    ensures
        r == is_host_decimal(name_view(*module_name), name_view(*class_name)),
{
    let module_matches = match module_name {
        Some(name) => *name == "decimal".to_owned(),
        None => false,
    };
    let class_matches = match class_name {
        Some(name) => *name == "Decimal".to_owned(),
        None => false,
    };
    module_matches && class_matches
}

/// The text by which a decimal goes to the host, which makes its own
/// decimal of it.
pub fn decimal_to_python(decimal_value: &DecimalValue) -> (r: String)
    ensures
        r@ == decimal_display(*decimal_value),
{
    decimal_value.to_text()
}

/// The decimal that a host object stands for, if it is the host's decimal:
/// `value_str` is the object's text. Of any other object `None`.
pub fn python_to_decimal(
    module_name: &Option<String>,
    class_name: &Option<String>,
    value_str: &str,
) -> (r: Result<Option<Value>, BridgeError>)
    ensures
        host_decimal_view(r) == host_decimal(
            name_view(*module_name),
            name_view(*class_name),
            value_str@,
        ),
{
    if is_python_decimal(module_name, class_name) {
        match parse_decimal(value_str) {
            Ok(decimal) => Ok(Some(alloc_decimal(decimal))),
            Err(message) => Err(BridgeError::InvalidDecimal { message }),
        }
    } else {
        Ok(None)
    }
}

/// The constructor gives the same decimal for an integer and for the string
/// of its exact base-10 text, and fails for both or for neither.
pub proof fn lemma_integer_and_its_text(n: int)
    ensures
        constructed(ValueView::Int(n)) is Ok <==> constructed(ValueView::Str(int_text(n))) is Ok,
        constructed(ValueView::Int(n)) matches Ok(d) ==> {
            &&& constructed(ValueView::Str(int_text(n))) == Ok::<DecimalValue, ErrorView>(d)
            &&& d.spec_equals(ValueView::Decimal(d))
        },
{
}

/// Equality is reflexive: every decimal equals itself.
pub proof fn lemma_equality_reflexive(d: DecimalValue)
    ensures
        d.spec_equals(ValueView::Decimal(d)),
{
}

/// Equality against a value that is neither a decimal nor an integer is
/// `false`.
pub proof fn lemma_equality_other_types(d: DecimalValue, other: ValueView)
    requires
        !(other is Decimal),
        !(other is Int),
    ensures
        !d.spec_equals(other),
{
}

/// Division, floor division and the remainder all refuse a zero divisor,
/// whatever its sign and scale.
pub proof fn lemma_zero_divisor(a: DecimalValue, zero: DecimalValue)
    requires
        zero.coefficient() == 0,
    ensures
        a.spec_div(ValueView::Decimal(zero)) == Err::<ValueView, ErrorView>(
            ErrorView::DivisionByZero,
        ),
        a.spec_floor_div(ValueView::Decimal(zero)) == Err::<ValueView, ErrorView>(
            ErrorView::DivisionByZero,
        ),
        a.spec_percent(ValueView::Decimal(zero)) == Err::<ValueView, ErrorView>(
            ErrorView::DivisionByZero,
        ),
{
}

/// Powers of ten are positive, and multiply as their exponents add.
proof fn lemma_pow10(m: nat, n: nat)
    ensures
        pow10(m) > 0,
        pow10(m + n) == pow10(m) * pow10(n),
    decreases m,
{
    if m == 0 {
        assert(pow10(0 + n) == 1 * pow10(n));
    } else {
        lemma_pow10((m - 1) as nat, n);
        assert(pow10(m + n) == 10 * pow10((m + n - 1) as nat));
        assert(10 * (pow10((m - 1) as nat) * pow10(n)) == (10 * pow10((m - 1) as nat)) * pow10(n))
            by (nonlinear_arith);
    }
}

/// What stripping leaves: the same number, written with a scale that is
/// not larger, and no trailing zero that the scale would allow to drop.
proof fn lemma_stripped(c: nat, s: nat)
    requires
        c > 0,
    ensures
        stripped(c, s).0 > 0,
        stripped(c, s).1 <= s,
        c == stripped(c, s).0 * pow10((s - stripped(c, s).1) as nat),
        stripped(c, s).1 == 0 || stripped(c, s).0 % 10 != 0,
    decreases s,
{
    if s > 0 && c % 10 == 0 {
        let s1 = (s - 1) as nat;
        lemma_stripped(c / 10, s1);
        let left = stripped(c / 10, s1);
        let gap = (s1 - left.1) as nat;
        assert(c == 10 * (c / 10));
        assert(pow10((gap + 1) as nat) == 10 * pow10(gap));
        assert(10 * (left.0 * pow10(gap)) == left.0 * (10 * pow10(gap))) by (nonlinear_arith);
    } else {
        assert(c == c * 1) by (nonlinear_arith);
    }
}

/// Two ways to write one number, neither with a trailing zero to drop, are
/// the same way.
proof fn lemma_stripped_unique(c1: nat, s1: nat, c2: nat, s2: nat)
    requires
        c1 > 0,
        c2 > 0,
        s1 == 0 || c1 % 10 != 0,
        s2 == 0 || c2 % 10 != 0,
        c1 * pow10(s2) == c2 * pow10(s1),
    ensures
        c1 == c2,
        s1 == s2,
{
    if s1 < s2 {
        let gap = (s2 - s1) as nat;
        lemma_pow10(s1, gap);
        lemma_pow10((gap - 1) as nat, 1);
        let p = pow10(s1);
        let g = pow10((gap - 1) as nat);
        assert(pow10(gap) == 10 * g);
        assert(c1 * (p * (10 * g)) == c2 * p && p > 0 ==> c2 == 10 * (c1 * g)) by (nonlinear_arith);
        assert(c2 % 10 == 0);
    } else if s2 < s1 {
        let gap = (s1 - s2) as nat;
        lemma_pow10(s2, gap);
        lemma_pow10((gap - 1) as nat, 1);
        let p = pow10(s2);
        let g = pow10((gap - 1) as nat);
        assert(pow10(gap) == 10 * g);
        assert(c2 * (p * (10 * g)) == c1 * p && p > 0 ==> c1 == 10 * (c2 * g)) by (nonlinear_arith);
        assert(c1 % 10 == 0);
    } else {
        lemma_pow10(s1, 0);
        let p = pow10(s1);
        assert(c1 * p == c2 * p && p > 0 ==> c1 == c2) by (nonlinear_arith);
    }
}

/// Decimals of equal number have one normal form, and so the same words to
/// hash: two decimals that compare equal hash equal.
pub proof fn lemma_equal_numbers_hash_alike(a: DecimalValue, b: DecimalValue)
    requires
        numeric_order(a, b) == Comparison::Equal,
    ensures
        normal_form(a) == normal_form(b),
        normal_form(a).words() == normal_form(b).words(),
{
    let ca = a.coefficient();
    let cb = b.coefficient();
    let sa = a.exponent();
    let sb = b.exponent();
    lemma_pow10(sa, 0);
    lemma_pow10(sb, 0);
    let pa = pow10(sa);
    let pb = pow10(sb);
    let xa = a.signed_coefficient();
    let xb = b.signed_coefficient();
    assert(xa * pb == xb * pa);
    if ca == 0 {
        assert(xa == 0);
        assert(xa * pb == 0) by (nonlinear_arith)
            requires
                xa == 0,
        ;
        assert(xb * pa == 0 && pa > 0 ==> xb == 0) by (nonlinear_arith);
        assert(cb == 0);
    } else {
        assert(xa * pb == xb * pa && pa > 0 && pb > 0 && xa != 0 ==> xb != 0 && ((xa < 0) == (xb
            < 0))) by (nonlinear_arith);
        assert(cb != 0);
        assert(a.sign_negative() == b.sign_negative());
        assert(ca * pb == cb * pa) by (nonlinear_arith)
            requires
                xa * pb == xb * pa,
                (xa == ca && xb == cb) || (xa == -ca && xb == -cb),
        ;
        lemma_stripped(ca, sa);
        lemma_stripped(cb, sb);
        let na = stripped(ca, sa);
        let nb = stripped(cb, sb);
        let ga = pow10((sa - na.1) as nat);
        let gb = pow10((sb - nb.1) as nat);
        lemma_pow10(na.1, (sa - na.1) as nat);
        lemma_pow10(nb.1, (sb - nb.1) as nat);
        lemma_pow10((sa - na.1) as nat, 0);
        lemma_pow10((sb - nb.1) as nat, 0);
        let qa = pow10(na.1);
        let qb = pow10(nb.1);
        assert(pa == qa * ga);
        assert(pb == qb * gb);
        assert(na.0 * qb == nb.0 * qa) by (nonlinear_arith)
            requires
                ca * pb == cb * pa,
                ca == na.0 * ga,
                cb == nb.0 * gb,
                pa == qa * ga,
                pb == qb * gb,
                ga > 0,
                gb > 0,
        ;
        lemma_stripped_unique(na.0, na.1, nb.0, nb.1);
    }
}

/// The ordering turns round with its operands: `a` is below `b` where `b`
/// is above `a`, and they are equal in one direction where they are in the
/// other.
pub proof fn lemma_order_antisymmetric(a: DecimalValue, b: DecimalValue)
    ensures
        numeric_order(a, b) == Comparison::Less <==> numeric_order(b, a) == Comparison::Greater,
        numeric_order(a, b) == Comparison::Equal <==> numeric_order(b, a) == Comparison::Equal,
        numeric_order(a, b) == Comparison::Greater <==> numeric_order(b, a) == Comparison::Less,
{
}

/// The ordering is transitive: what is not above `b`, which is not above
/// `c`, is not above `c`; and it is below `c` where one of the two steps is
/// strict.
pub proof fn lemma_order_transitive(a: DecimalValue, b: DecimalValue, c: DecimalValue)
    requires
        numeric_order(a, b) != Comparison::Greater,
        numeric_order(b, c) != Comparison::Greater,
    ensures
        numeric_order(a, c) != Comparison::Greater,
        numeric_order(a, b) == Comparison::Less || numeric_order(b, c) == Comparison::Less
            ==> numeric_order(a, c) == Comparison::Less,
{
    lemma_pow10(a.exponent(), 0);
    lemma_pow10(b.exponent(), 0);
    lemma_pow10(c.exponent(), 0);
    let pa = pow10(a.exponent()) as int;
    let pb = pow10(b.exponent()) as int;
    let pc = pow10(c.exponent()) as int;
    let xa = a.signed_coefficient();
    let xb = b.signed_coefficient();
    let xc = c.signed_coefficient();
    assert(xa * pb <= xb * pa);
    assert(xb * pc <= xc * pb);
    assert(xa * pc <= xc * pa) by (nonlinear_arith)
        requires
            xa * pb <= xb * pa,
            xb * pc <= xc * pb,
            pa > 0,
            pb > 0,
            pc > 0,
    ;
    if numeric_order(a, b) == Comparison::Less || numeric_order(b, c) == Comparison::Less {
        assert(xa * pc < xc * pa) by (nonlinear_arith)
            requires
                xa * pb <= xb * pa,
                xb * pc <= xc * pb,
                xa * pb < xb * pa || xb * pc < xc * pb,
                pa > 0,
                pb > 0,
                pc > 0,
        ;
    }
}

} // verus!
