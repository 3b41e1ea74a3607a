//! The numeric model of the calculator.
//!
//! Every number flowing through the pipeline is an arbitrary-precision
//! decimal, carried at run time by `bigdecimal::BigDecimal` and modelled by
//! [`DecVal`], the pair the crate stores: an unbounded integer `m` and a
//! 64-bit decimal scale `e`, denoting the value `m / 10^e`. Modelling the
//! stored pair (rather than the value alone) matters because division and
//! rendering depend on the representation, not only on the value: their
//! results are named over the pair ([`dec_div`], [`dec_plain_str`]).
//!
//! Addition, subtraction, multiplication and negation are exact and their
//! stored results are given fully by spec functions; [`dec_val_eq`] states
//! when two pairs denote the same value, and the small laws below show the
//! operations exact in that sense.
//!
//! The scale is a machine `i64`, so the trusted operations are guaranteed
//! panic-free only within the comfortable margin [`dec_fits`] (a quarter of
//! the `i64` range): inside it, every scale computed by one operation
//! (at most the sum or difference of two scales, plus the digit counts any
//! machine can hold) stays representable.

use vstd::prelude::*;

use bigdecimal::BigDecimal;

verus! {

/// The stored form of an arbitrary-precision decimal: an unbounded integer
/// `m` and a decimal scale `e` (an `i64` at run time), denoting `m / 10^e`.
/// Trailing zeros in `m` make the same value representable in many ways;
/// operations below say exactly which pair they produce.
pub ghost struct DecVal {
    pub m: int,
    pub e: int,
}

/// The scale magnitude within which the trusted arithmetic and rendering
/// are panic-free: a quarter of the `i64` range, leaving room for one
/// operation's scale sum or difference plus any physically storable digit
/// count.
pub const SCALE_LIMIT: i64 = 2305843009213693951;

/// Whether a stored pair's scale lies within [`SCALE_LIMIT`].
pub open spec fn dec_fits(d: DecVal) -> bool {
    -(SCALE_LIMIT as int) <= d.e <= SCALE_LIMIT as int
}

pub open spec fn pow10(e: nat) -> int
    decreases e,
{
    if e == 0 {
        1
    } else {
        10 * pow10((e - 1) as nat)
    }
}

/// `bigdecimal`'s addition of stored pairs: align both to the larger scale,
/// add the integers. (Its zero shortcuts produce exactly this pair too.)
pub open spec fn dec_add(a: DecVal, b: DecVal) -> DecVal {
    let e = if a.e >= b.e {
        a.e
    } else {
        b.e
    };
    DecVal { m: a.m * pow10((e - a.e) as nat) + b.m * pow10((e - b.e) as nat), e }
}

/// `bigdecimal`'s subtraction of stored pairs: a zero operand short-circuits
/// without aligning; otherwise align to the larger scale and subtract.
pub open spec fn dec_sub(a: DecVal, b: DecVal) -> DecVal {
    if b.m == 0 {
        a
    } else if a.m == 0 {
        DecVal { m: -b.m, e: b.e }
    } else {
        let e = if a.e >= b.e {
            a.e
        } else {
            b.e
        };
        DecVal { m: a.m * pow10((e - a.e) as nat) - b.m * pow10((e - b.e) as nat), e }
    }
}

/// `bigdecimal`'s multiplication of stored pairs: multiply the integers,
/// add the scales.
pub open spec fn dec_mul(a: DecVal, b: DecVal) -> DecVal {
    DecVal { m: a.m * b.m, e: a.e + b.e }
}

/// Negation: negate the integer, keep the scale.
pub open spec fn dec_neg(a: DecVal) -> DecVal {
    DecVal { m: -a.m, e: a.e }
}

/// Whether the pair denotes exactly zero.
pub open spec fn dec_is_zero(a: DecVal) -> bool {
    a.m == 0
}

/// Whether two stored pairs denote the same value: aligned to a common
/// scale, their integers agree.
pub open spec fn dec_val_eq(a: DecVal, b: DecVal) -> bool {
    let e = if a.e >= b.e {
        a.e
    } else {
        b.e
    };
    a.m * pow10((e - a.e) as nat) == b.m * pow10((e - b.e) as nat)
}

/// The quotient `bigdecimal` computes for `a / b`: the true quotient to the
/// crate's default count of significant digits, counted from the stored
/// representations, so it is a function of the two stored pairs (not of the
/// values alone) and is only named here, never written out.
pub uninterp spec fn dec_div(a: DecVal, b: DecVal) -> DecVal;

/// The plain rendering of a decimal, as `bigdecimal` prints the
/// trailing-zero-free (`normalized`) representation: a function of the
/// stored pair, only named here.
pub uninterp spec fn dec_plain_str(d: DecVal) -> Seq<char>;

// ---------------------------------------------------------------------------
// Exactness of the stored-pair arithmetic, as value-level laws.
// ---------------------------------------------------------------------------

/// Addition of stored pairs is exact: [`dec_add`] is, definitionally, the
/// common-scale alignment of its operands, so its value is the sum; this
/// law records the alignment-invariance, in the only nontrivial direction a
/// reader might doubt: aligning a pair to any larger scale keeps its value.
pub proof fn lemma_align_keeps_value(a: DecVal, e: int)
    requires
        a.e <= e,
    ensures
        dec_val_eq(a, DecVal { m: a.m * pow10((e - a.e) as nat), e }),
{
}

/// Subtraction of stored pairs is exact: its zero shortcuts return a pair
/// whose value equals the aligned difference computed by the general rule.
pub proof fn lemma_dec_sub_exact(a: DecVal, b: DecVal)
    ensures
        ({
            let e = if a.e >= b.e {
                a.e
            } else {
                b.e
            };
            dec_val_eq(
                dec_sub(a, b),
                DecVal { m: a.m * pow10((e - a.e) as nat) - b.m * pow10((e - b.e) as nat), e },
            )
        }),
{
    let e = if a.e >= b.e {
        a.e
    } else {
        b.e
    };
    let pa = pow10((e - a.e) as nat);
    let pb = pow10((e - b.e) as nat);
    let s = DecVal { m: a.m * pa - b.m * pb, e };
    assert(pow10(0) == 1);
    assert(s.m * pow10(0) == s.m) by (nonlinear_arith)
        requires pow10(0) == 1;
    if b.m == 0 {
        assert(b.m * pb == 0) by (nonlinear_arith)
            requires b.m == 0;
        assert(s.m == a.m * pa);
        assert(dec_val_eq(a, s));
    } else if a.m == 0 {
        assert(a.m * pa == 0) by (nonlinear_arith)
            requires a.m == 0;
        assert(s.m == 0 - b.m * pb);
        assert((-b.m) * pb == 0 - b.m * pb) by (nonlinear_arith);
        assert(dec_val_eq(DecVal { m: -b.m, e: b.e }, s));
    } else {
        assert(dec_val_eq(s, s));
    }
}

// ---------------------------------------------------------------------------
// The decimal-literal grammar accepted by `BigDecimal::from_str` (radix 10),
// restricted to strings without sign characters -- the lexer never hands a
// run containing `+` or `-` to the number parser.
// ---------------------------------------------------------------------------

pub open spec fn is_digit(c: char) -> bool {
    '0' as u32 <= c as u32 && c as u32 <= '9' as u32
}

pub open spec fn digit_val(c: char) -> int {
    c as int - '0' as int
}

pub open spec fn has_no_sign(s: Seq<char>) -> bool {
    forall|i: int| 0 <= i < s.len() ==> s[i] != '+' && s[i] != '-'
}

/// Index of the first occurrence of `a` or `b` at or after `i`, or `s.len()`
/// if there is none.
pub open spec fn find_char(s: Seq<char>, i: int, a: char, b: char) -> int
    decreases s.len() - i,
{
    if i < 0 || i >= s.len() {
        s.len() as int
    } else if s[i] == a || s[i] == b {
        i
    } else {
        find_char(s, i + 1, a, b)
    }
}

/// An unsigned digit string as `BigUint::from_str_radix` takes it: nonempty,
/// not starting with an underscore, every character a decimal digit or an
/// underscore.
pub open spec fn digits_ok(s: Seq<char>) -> bool {
    &&& s.len() > 0
    &&& s[0] != '_'
    &&& forall|i: int| 0 <= i < s.len() ==> is_digit(s[i]) || s[i] == '_'
}

/// The integer written by a digit string, underscores skipped.
pub open spec fn digits_val(s: Seq<char>) -> int
    decreases s.len(),
{
    if s.len() == 0 {
        0
    } else if s[s.len() - 1] == '_' {
        digits_val(s.drop_last())
    } else {
        10 * digits_val(s.drop_last()) + digit_val(s[s.len() - 1])
    }
}

/// An unsigned exponent string as `i128::from_str` takes it: nonempty, all
/// decimal digits (no underscores), value within `i128`.
pub open spec fn exp_digits_ok(s: Seq<char>) -> bool {
    &&& s.len() > 0
    &&& forall|i: int| 0 <= i < s.len() ==> is_digit(s[i])
    &&& digits_val(s) <= i128::MAX as int
}

/// Position of the first `e`/`E`, splitting mantissa from exponent.
pub open spec fn exp_pos(s: Seq<char>) -> int {
    find_char(s, 0, 'e', 'E')
}

pub open spec fn has_exp(s: Seq<char>) -> bool {
    exp_pos(s) < s.len()
}

pub open spec fn base_part(s: Seq<char>) -> Seq<char> {
    s.take(exp_pos(s))
}

pub open spec fn exp_part(s: Seq<char>) -> Seq<char> {
    s.skip(exp_pos(s) + 1)
}

pub open spec fn exp_val(s: Seq<char>) -> int {
    if has_exp(s) {
        digits_val(exp_part(s))
    } else {
        0
    }
}

/// Position of the first `.` within the mantissa part.
pub open spec fn dot_pos(b: Seq<char>) -> int {
    find_char(b, 0, '.', '.')
}

/// The digit string handed to the big-integer parser: the mantissa with its
/// decimal point (if any) removed; a trailing decimal point is dropped.
pub open spec fn lit_digits(s: Seq<char>) -> Seq<char> {
    let b = base_part(s);
    if dot_pos(b) == b.len() {
        b
    } else if dot_pos(b) == b.len() - 1 {
        b.take(b.len() - 1)
    } else {
        b.take(dot_pos(b)) + b.skip(dot_pos(b) + 1)
    }
}

/// How many digits stood after the decimal point (underscores not counted).
pub open spec fn lit_frac_count(s: Seq<char>) -> int {
    let b = base_part(s);
    if dot_pos(b) == b.len() || dot_pos(b) == b.len() - 1 {
        0
    } else {
        b.skip(dot_pos(b) + 1).filter(|c: char| c != '_').len() as int
    }
}

/// The scale `BigDecimal` stores: fractional digits minus the written
/// exponent. The value of the literal is `digits * 10^(-scale)`.
pub open spec fn lit_scale(s: Seq<char>) -> int {
    lit_frac_count(s) - exp_val(s)
}

/// Exactly the strings (without sign characters) that
/// `BigDecimal::from_str` accepts.
pub open spec fn is_decimal_literal(s: Seq<char>) -> bool {
    &&& (has_exp(s) ==> exp_digits_ok(exp_part(s)))
    &&& base_part(s).len() > 0
    &&& digits_ok(lit_digits(s))
    &&& i64::MIN as int <= lit_scale(s) <= i64::MAX as int
}

/// The stored pair of a valid literal: its digits and its scale, exactly as
/// `BigDecimal::from_str` stores them.
pub open spec fn dec_lit_val(s: Seq<char>) -> DecVal {
    DecVal { m: digits_val(lit_digits(s)), e: lit_scale(s) }
}

// ---------------------------------------------------------------------------
// Trusted boundary around bigdecimal.
// ---------------------------------------------------------------------------

#[verifier::external_type_specification]
#[verifier::external_body]
pub struct ExBigDecimal(BigDecimal);

/// The stored pair of a `BigDecimal`: its unbounded integer and its `i64`
/// scale.
pub uninterp spec fn bd_model(d: BigDecimal) -> DecVal;

/// Relies on `<BigDecimal as Clone>::clone` (derived): the copy holds the
/// same integer and scale.
pub assume_specification[ <BigDecimal as Clone>::clone ](d: &BigDecimal) -> (r: BigDecimal)
    ensures
        bd_model(r) == bd_model(*d),
;

/// Relies on `BigDecimal::from_str` (through `str::parse`): it accepts
/// exactly the literals of [`is_decimal_literal`] and stores their digits
/// and scale ([`dec_lit_val`]). Restricted to sign-free strings, the only
/// ones the lexer produces.
#[verifier::external_body]
pub(crate) fn bd_from_str(s: &str) -> (r: Option<BigDecimal>)
    requires
        has_no_sign(s@),
    ensures
        r is Some <==> is_decimal_literal(s@),
        r is Some ==> bd_model(r->0) == dec_lit_val(s@),
{
    match s.parse::<BigDecimal>() {
        Ok(d) => Some(d),
        Err(_) => None,
    }
}

/// Relies on `BigDecimal::fractional_digit_count`: it returns the stored
/// scale.
#[verifier::external_body]
pub(crate) fn bd_scale(d: &BigDecimal) -> (r: i64)
    ensures
        r as int == bd_model(*d).e,
{
    d.fractional_digit_count()
}

/// Relies on `Add for BigDecimal` (the owned-operand impl): align to the
/// larger scale and add the integers -- its zero shortcuts produce the very
/// same pair -- exactly [`dec_add`]. Within [`dec_fits`] no scale
/// computation can leave `i64`.
#[verifier::external_body]
pub(crate) fn bd_add(a: &BigDecimal, b: &BigDecimal) -> (r: BigDecimal)
    requires
        dec_fits(bd_model(*a)),
        dec_fits(bd_model(*b)),
    ensures
        bd_model(r) == dec_add(bd_model(*a), bd_model(*b)),
{
    a.clone() + b.clone()
}

/// Relies on `Sub for BigDecimal` (the owned-operand impl): a zero operand
/// short-circuits without aligning, otherwise align to the larger scale and
/// subtract -- exactly [`dec_sub`]. Within [`dec_fits`] no scale
/// computation can leave `i64`.
#[verifier::external_body]
pub(crate) fn bd_sub(a: &BigDecimal, b: &BigDecimal) -> (r: BigDecimal)
    requires
        dec_fits(bd_model(*a)),
        dec_fits(bd_model(*b)),
    ensures
        bd_model(r) == dec_sub(bd_model(*a), bd_model(*b)),
{
    a.clone() - b.clone()
}

/// Relies on `Mul<&BigDecimal> for BigDecimal`, which multiplies through
/// `MulAssign` on a borrowed right operand -- the plain path with no
/// shortcut: multiply the integers, add the scales, exactly [`dec_mul`].
/// Within [`dec_fits`] the scale sum stays in `i64`.
#[verifier::external_body]
pub(crate) fn bd_mul(a: &BigDecimal, b: &BigDecimal) -> (r: BigDecimal)
    requires
        dec_fits(bd_model(*a)),
        dec_fits(bd_model(*b)),
    ensures
        bd_model(r) == dec_mul(bd_model(*a), bd_model(*b)),
{
    a.clone() * b
}

/// Relies on `Neg for BigDecimal`: negate the integer, keep the scale.
/// No scale arithmetic, hence no bound is needed.
#[verifier::external_body]
pub(crate) fn bd_neg(a: &BigDecimal) -> (r: BigDecimal)
    ensures
        bd_model(r) == dec_neg(bd_model(*a)),
{
    -a.clone()
}

/// Relies on `Div for &BigDecimal`: every path of the division -- the zero
/// and equal-integer shortcuts, the one-quickcheck, and the long division
/// rounded to the crate's default precision -- computes a function of the
/// two stored pairs, named [`dec_div`]. Division by zero panics there and
/// is excluded; within [`dec_fits`] the scale arithmetic (a difference of
/// two scales plus a storable digit count plus the precision) stays in
/// `i64`.
#[verifier::external_body]
pub(crate) fn bd_div(a: &BigDecimal, b: &BigDecimal) -> (r: BigDecimal)
    requires
        !dec_is_zero(bd_model(*b)),
        dec_fits(bd_model(*a)),
        dec_fits(bd_model(*b)),
    ensures
        bd_model(r) == dec_div(bd_model(*a), bd_model(*b)),
{
    a / b
}

/// Relies on `num_traits::Zero::is_zero` for `BigDecimal`: true exactly when
/// the stored integer is zero.
#[verifier::external_body]
pub(crate) fn bd_is_zero(a: &BigDecimal) -> (r: bool)
    ensures
        r <==> dec_is_zero(bd_model(*a)),
{
    bigdecimal::Zero::is_zero(a)
}

/// Relies on `BigDecimal::normalized` and its `Display` impl: strip the
/// trailing zero digits, then print -- a function of the stored pair, named
/// [`dec_plain_str`]. Within [`dec_fits`] the normalization's scale
/// decrement (at most a storable digit count) and the formatter's exponent
/// arithmetic (done in `i128`, or under checked operations) stay in range.
#[verifier::external_body]
pub(crate) fn bd_render(d: &BigDecimal) -> (r: String)
    requires
        dec_fits(bd_model(*d)),
    ensures
        r@ == dec_plain_str(bd_model(*d)),
{
    d.normalized().to_string()
}

} // verus!
