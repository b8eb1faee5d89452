//! Numbers, parameters and values: the things that follow a G-code word letter.
use crate::expression::{parse_expression, sp_expression, ExprTokenModel, Expression};
use crate::expression::lemma_expression_frame;
use crate::text::{
    agree_from, char_no_case, char_no_case_at, copy_range, digits_end, digits_val, digits_value,
    find, find_byte, is_digit, lemma_digits_end, lemma_digits_end_frame, lemma_find_byte_frame,
    lemma_space0_end_frame, parsed_as, skip_digits, skip_space, space0_end, substr,
};
use vstd::prelude::*;
use vstd::string::StringSliceAdditionalSpecFns;
use vstd::utf8::*;

verus! {

broadcast use vstd::seq::group_seq_axioms;

/// An exact decimal number, as written in the program text.
///
/// `integer` and `fraction` hold ASCII digits. A parsed number is canonical: `integer` has
/// no leading zeros, `fraction` no trailing zeros and zero is never negative, so two parsed
/// numbers are equal exactly when their values are.
#[derive(Debug, Clone, PartialEq)]
pub struct Decimal {
    /// Whether the number is below zero
    pub negative: bool,
    /// Digits before the decimal point, most significant first
    pub integer: Vec<u8>,
    /// Digits after the decimal point
    pub fraction: Vec<u8>,
}

/// The mathematical content of a [`Decimal`].
pub struct DecimalModel {
    pub negative: bool,
    pub integer: Seq<u8>,
    pub fraction: Seq<u8>,
}

impl View for Decimal {
    type V = DecimalModel;

    open spec fn view(&self) -> DecimalModel {
        DecimalModel { negative: self.negative, integer: self.integer@, fraction: self.fraction@ }
    }
}

/// A numbered or named parameter (`#5`, `#<name>`, `#<_global>`)
#[derive(Debug, Clone, PartialEq)]
pub enum Parameter {
    /// A numbered parameter like `#1000`
    Numbered(u32),
    /// A named parameter local to the current subroutine, like `#<name>`
    Local(String),
    /// A global named parameter like `#<_name>` (the name is stored without the `_`)
    Global(String),
}

pub enum ParameterModel {
    Numbered(u32),
    Local(Seq<char>),
    Global(Seq<char>),
}

impl View for Parameter {
    type V = ParameterModel;

    open spec fn view(&self) -> ParameterModel {
        match self {
            Parameter::Numbered(n) => ParameterModel::Numbered(*n),
            Parameter::Local(s) => ParameterModel::Local(s@),
            Parameter::Global(s) => ParameterModel::Global(s@),
        }
    }
}

/// A value: a literal number, a parameter or an expression
#[derive(Debug, PartialEq)]
pub enum Value {
    /// A literal decimal number
    Literal(Decimal),
    /// The value of a parameter
    Parameter(Parameter),
    /// The result of an expression
    Expression(Expression),
}

pub enum ValueModel {
    Literal(DecimalModel),
    Parameter(ParameterModel),
    Expression(Seq<ExprTokenModel>),
}

impl View for Value {
    type V = ValueModel;

    open spec fn view(&self) -> ValueModel {
        match self {
            Value::Literal(d) => ValueModel::Literal(d@),
            Value::Parameter(p) => ValueModel::Parameter(p@),
            Value::Expression(e) => ValueModel::Expression(e@),
        }
    }
}

/// A value that must be a non-negative integer when it is a literal
#[derive(Debug, PartialEq)]
pub enum UnsignedValue {
    /// A literal integer
    Literal(u32),
    /// The value of a parameter
    Parameter(Parameter),
    /// The result of an expression
    Expression(Expression),
}

pub enum UnsignedValueModel {
    Literal(u32),
    Parameter(ParameterModel),
    Expression(Seq<ExprTokenModel>),
}

impl View for UnsignedValue {
    type V = UnsignedValueModel;

    open spec fn view(&self) -> UnsignedValueModel {
        match self {
            UnsignedValue::Literal(n) => UnsignedValueModel::Literal(*n),
            UnsignedValue::Parameter(p) => UnsignedValueModel::Parameter(p@),
            UnsignedValue::Expression(e) => UnsignedValueModel::Expression(e@),
        }
    }
}

/// The first index in `a..b` that does not hold `'0'` (or `b`).
pub open spec fn first_nonzero(s: Seq<u8>, a: int, b: int) -> int
    decreases b - a,
{
    if a < b && s[a] == 0x30 {
        first_nonzero(s, a + 1, b)
    } else {
        a
    }
}

/// The end of `s[a..b]` once trailing `'0'`s are dropped.
pub open spec fn nonzero_end(s: Seq<u8>, a: int, b: int) -> int
    decreases b - a,
{
    if a < b && s[b - 1] == 0x30 {
        nonzero_end(s, a, b - 1)
    } else {
        b
    }
}

/// The canonical number whose digits are `s[a..b]` before the point and `s[c..d]` after it.
pub open spec fn decimal_of(s: Seq<u8>, negative: bool, a: int, b: int, c: int, d: int) -> DecimalModel {
    let i0 = first_nonzero(s, a, b);
    let f1 = nonzero_end(s, c, d);
    DecimalModel {
        negative: negative && (i0 < b || c < f1),
        integer: s.subrange(i0, b),
        fraction: s.subrange(c, f1),
    }
}

/// Every byte of `d` is an ASCII digit.
pub open spec fn all_digits(d: Seq<u8>) -> bool {
    forall|i: int| 0 <= i < d.len() ==> is_digit(#[trigger] d[i])
}

/// A decimal number at `p`: an optional sign (only when `signed`), digits, and an
/// optional point followed by more digits; at least one digit in all. No exponent.
pub open spec fn sp_number(s: Seq<u8>, p: int, signed: bool) -> Option<(DecimalModel, int)> {
    let has_sign = signed && 0 <= p < s.len() && (s[p] == 0x2b || s[p] == 0x2d);
    let q = if has_sign { p + 1 } else { p };
    let negative = has_sign && s[p] == 0x2d;
    let ie = digits_end(s, q);
    let dot = ie < s.len() && s[ie] == 0x2e;
    let fs = if dot { ie + 1 } else { ie };
    let fe = if dot { digits_end(s, ie + 1) } else { ie };
    if ie == q && fe == fs {
        None
    } else {
        Some((decimal_of(s, negative, q, ie, fs, fe), fe))
    }
}

/// A non-negative integer literal that fits a `u32`.
pub open spec fn sp_u32(s: Seq<u8>, p: int) -> Option<(u32, int)> {
    let e = digits_end(s, p);
    if e > p && digits_val(s.subrange(p, e)) <= u32::MAX {
        Some((digits_val(s.subrange(p, e)) as u32, e))
    } else {
        None
    }
}

/// A parameter reference at `p`: `#` then digits, or `#<name>`, or `#<_name>`.
pub open spec fn sp_parameter(s: Seq<u8>, p: int) -> Option<(ParameterModel, int)> {
    if !(0 <= p < s.len() && s[p] == 0x23) {
        None
    } else if p + 1 < s.len() && s[p + 1] == 0x3c {
        match find_byte(s, p + 2, 0x3e) {
            Some(b) => if p + 2 < b && s[p + 2] == 0x5f {
                Some((ParameterModel::Global(decode_utf8(s.subrange(p + 3, b))), b + 1))
            } else {
                Some((ParameterModel::Local(decode_utf8(s.subrange(p + 2, b))), b + 1))
            },
            None => None,
        }
    } else {
        match sp_u32(s, p + 1) {
            Some((n, e)) => Some((ParameterModel::Numbered(n), e)),
            None => None,
        }
    }
}

/// A value at `p`: a number (signed or not), a parameter or an expression.
pub open spec fn sp_value(s: Seq<u8>, p: int, signed: bool) -> Option<(ValueModel, int)> {
    match sp_number(s, p, signed) {
        Some((d, e)) => Some((ValueModel::Literal(d), e)),
        None => match sp_parameter(s, p) {
            Some((m, e)) => Some((ValueModel::Parameter(m), e)),
            None => match sp_expression(s, p) {
                Some((x, e)) => Some((ValueModel::Expression(x), e)),
                None => None,
            },
        },
    }
}

/// An unsigned value at `p`: a `u32` literal, a parameter or an expression.
pub open spec fn sp_unsigned_value(s: Seq<u8>, p: int) -> Option<(UnsignedValueModel, int)> {
    match sp_u32(s, p) {
        Some((n, e)) => Some((UnsignedValueModel::Literal(n), e)),
        None => match sp_parameter(s, p) {
            Some((m, e)) => Some((UnsignedValueModel::Parameter(m), e)),
            None => match sp_expression(s, p) {
                Some((x, e)) => Some((UnsignedValueModel::Expression(x), e)),
                None => None,
            },
        },
    }
}

/// A word letter (any case), optional spaces, then a value.
pub open spec fn sp_preceded_value(s: Seq<u8>, p: int, letter: u8, signed: bool) -> Option<
    (ValueModel, int),
> {
    if char_no_case_at(s, p, letter) {
        sp_value(s, space0_end(s, p + 1), signed)
    } else {
        None
    }
}

/// A word letter (any case), optional spaces, then an unsigned value.
pub open spec fn sp_preceded_unsigned_value(s: Seq<u8>, p: int, letter: u8) -> Option<
    (UnsignedValueModel, int),
> {
    if char_no_case_at(s, p, letter) {
        sp_unsigned_value(s, space0_end(s, p + 1))
    } else {
        None
    }
}

pub proof fn lemma_first_nonzero(s: Seq<u8>, a: int, b: int)
    requires
        0 <= a <= b <= s.len(),
    ensures
        a <= first_nonzero(s, a, b) <= b,
        first_nonzero(s, a, b) < b ==> s[first_nonzero(s, a, b)] != 0x30,
    decreases b - a,
{
    if a < b && s[a] == 0x30 {
        lemma_first_nonzero(s, a + 1, b);
    }
}

pub proof fn lemma_nonzero_end(s: Seq<u8>, a: int, b: int)
    requires
        0 <= a <= b <= s.len(),
    ensures
        a <= nonzero_end(s, a, b) <= b,
        a < nonzero_end(s, a, b) ==> s[nonzero_end(s, a, b) - 1] != 0x30,
    decreases b - a,
{
    if a < b && s[b - 1] == 0x30 {
        lemma_nonzero_end(s, a, b - 1);
    }
}

/// A number in canonical form: ASCII digits only, no leading `0` before the point, no
/// trailing `0` after it, and a sign only on a number that is not zero.
pub open spec fn canonical(d: DecimalModel) -> bool {
    &&& all_digits(d.integer)
    &&& all_digits(d.fraction)
    &&& (d.integer.len() > 0 ==> d.integer[0] != 0x30)
    &&& (d.fraction.len() > 0 ==> d.fraction.last() != 0x30)
    &&& (d.negative ==> d.integer.len() + d.fraction.len() > 0)
}

/// Every parsed number is in canonical form: leading zeros before the point, trailing zeros
/// after it and the sign of a zero are not kept.
pub proof fn lemma_number_canonical(s: Seq<u8>, p: int, signed: bool)
    requires
        0 <= p <= s.len(),
    ensures
        sp_number(s, p, signed) matches Some((d, _)) ==> canonical(d),
{
    let has_sign = signed && 0 <= p < s.len() && (s[p] == 0x2b || s[p] == 0x2d);
    let q = if has_sign { p + 1 } else { p };
    lemma_digits_end(s, q);
    let ie = digits_end(s, q);
    let dot = ie < s.len() && s[ie] == 0x2e;
    let fs = if dot { ie + 1 } else { ie };
    if dot {
        lemma_digits_end(s, ie + 1);
    }
    let fe = if dot { digits_end(s, ie + 1) } else { ie };
    if let Some((d, _)) = sp_number(s, p, signed) {
        lemma_first_nonzero(s, q, ie);
        lemma_nonzero_end(s, fs, fe);
        let i0 = first_nonzero(s, q, ie);
        let f1 = nonzero_end(s, fs, fe);
        assert(d.integer =~= s.subrange(i0, ie));
        assert(d.fraction =~= s.subrange(fs, f1));
        assert(all_digits(d.integer));
        assert(all_digits(d.fraction));
    }
}

/// A number is negative exactly when it is written with a `-` (where a sign may stand) and
/// is not zero: `-1.5` is negative, `+1.5`, `1.5` and `-0` are not.
pub proof fn lemma_number_sign(s: Seq<u8>, p: int, signed: bool)
    ensures
        sp_number(s, p, signed) matches Some((d, _)) ==> (d.negative <==> (signed && 0 <= p
            < s.len() && s[p] == 0x2d && d.integer.len() + d.fraction.len() > 0)),
{
    if 0 <= p <= s.len() {
        let has_sign = signed && 0 <= p < s.len() && (s[p] == 0x2b || s[p] == 0x2d);
        let q = if has_sign { p + 1 } else { p };
        lemma_digits_end(s, q);
        let ie = digits_end(s, q);
        let dot = ie < s.len() && s[ie] == 0x2e;
        let fs = if dot { ie + 1 } else { ie };
        if dot {
            lemma_digits_end(s, ie + 1);
        }
        let fe = if dot { digits_end(s, ie + 1) } else { ie };
        lemma_first_nonzero(s, q, ie);
        lemma_nonzero_end(s, fs, fe);
    }
}

/// A parameter is of the kind it is written as: `#5` is numbered, `#<_name>` global and
/// `#<name>` local.
pub proof fn lemma_parameter_kind(s: Seq<u8>, p: int)
    ensures
        sp_parameter(s, p) matches Some((m, _)) ==> {
            &&& 0 <= p && p + 1 < s.len() && s[p] == 0x23
            &&& m is Numbered <==> is_digit(s[p + 1])
            &&& m is Global <==> (s[p + 1] == 0x3c && p + 2 < s.len() && s[p + 2] == 0x5f)
            &&& m is Local <==> (s[p + 1] == 0x3c && !(p + 2 < s.len() && s[p + 2] == 0x5f))
        },
{
    if 0 <= p && p + 1 < s.len() {
        lemma_digits_end(s, p + 1);
        crate::text::lemma_find_byte(s, p + 2, 0x3e);
    }
}

pub proof fn lemma_first_nonzero_frame(s: Seq<u8>, t: Seq<u8>, q: int, a: int, b: int)
    requires
        agree_from(s, t, q),
        q <= a,
        b <= s.len(),
    ensures
        first_nonzero(s, a, b) == first_nonzero(t, a, b),
    decreases b - a,
{
    if a < b {
        assert(s[a] == t[a]);
        lemma_first_nonzero_frame(s, t, q, a + 1, b);
    }
}

pub proof fn lemma_nonzero_end_frame(s: Seq<u8>, t: Seq<u8>, q: int, a: int, b: int)
    requires
        agree_from(s, t, q),
        q <= a,
        b <= s.len(),
    ensures
        nonzero_end(s, a, b) == nonzero_end(t, a, b),
    decreases b - a,
{
    if a < b {
        assert(s[b - 1] == t[b - 1]);
        lemma_nonzero_end_frame(s, t, q, a, b - 1);
    }
}

/// A number is read from the bytes at and after its start only.
pub proof fn lemma_number_frame(s: Seq<u8>, t: Seq<u8>, q: int, signed: bool)
    requires
        agree_from(s, t, q),
        0 <= q <= s.len(),
    ensures
        sp_number(s, q, signed) == sp_number(t, q, signed),
{
    let has_sign = signed && 0 <= q < s.len() && (s[q] == 0x2b || s[q] == 0x2d);
    if 0 <= q < s.len() {
        assert(s[q] == t[q]);
    }
    let a = if has_sign { q + 1 } else { q };
    lemma_digits_end_frame(s, t, q, a);
    lemma_digits_end(s, a);
    let ie = digits_end(s, a);
    if 0 <= ie < s.len() {
        assert(s[ie] == t[ie]);
    }
    lemma_digits_end_frame(s, t, q, ie + 1);
    let dot = ie < s.len() && s[ie] == 0x2e;
    let fs = if dot { ie + 1 } else { ie };
    let fe = if dot { digits_end(s, ie + 1) } else { ie };
    if sp_number(s, q, signed) is Some {
        if dot {
            lemma_digits_end(s, ie + 1);
        }
        lemma_first_nonzero_frame(s, t, q, a, ie);
        lemma_nonzero_end_frame(s, t, q, fs, fe);
        let i0 = first_nonzero(s, a, ie);
        let f1 = nonzero_end(s, fs, fe);
        lemma_first_nonzero(s, a, ie);
        lemma_nonzero_end(s, fs, fe);
        assert(s.subrange(i0, ie) =~= t.subrange(i0, ie));
        assert(s.subrange(fs, f1) =~= t.subrange(fs, f1));
        assert(decimal_of(s, has_sign && s[q] == 0x2d, a, ie, fs, fe) == decimal_of(
            t,
            has_sign && s[q] == 0x2d,
            a,
            ie,
            fs,
            fe,
        ));
    }
}

/// A number, when there is one, ends after its start and within the text.
pub proof fn lemma_number_bounds(s: Seq<u8>, p: int, signed: bool)
    requires
        0 <= p <= s.len(),
    ensures
        sp_number(s, p, signed) matches Some((_, e)) ==> p < e <= s.len(),
{
    let has_sign = signed && 0 <= p < s.len() && (s[p] == 0x2b || s[p] == 0x2d);
    let q = if has_sign { p + 1 } else { p };
    lemma_digits_end(s, q);
    let ie = digits_end(s, q);
    if ie < s.len() && s[ie] == 0x2e {
        lemma_digits_end(s, ie + 1);
    }
}

/// A parameter, when there is one, ends after its start and within the text.
pub proof fn lemma_parameter_bounds(s: Seq<u8>, p: int)
    requires
        0 <= p <= s.len(),
    ensures
        sp_parameter(s, p) matches Some((_, e)) ==> p < e <= s.len(),
{
    crate::text::lemma_find_byte(s, p + 2, 0x3e);
    if p + 1 <= s.len() {
        lemma_digits_end(s, p + 1);
    }
}

pub proof fn lemma_u32_frame(s: Seq<u8>, t: Seq<u8>, q: int, p: int)
    requires
        agree_from(s, t, q),
        0 <= q <= p <= s.len(),
    ensures
        sp_u32(s, p) == sp_u32(t, p),
{
    lemma_digits_end_frame(s, t, q, p);
    lemma_digits_end(s, p);
    let e = digits_end(s, p);
    assert(s.subrange(p, e) =~= t.subrange(p, e));
}

pub proof fn lemma_parameter_frame(s: Seq<u8>, t: Seq<u8>, q: int, p: int)
    requires
        agree_from(s, t, q),
        0 <= q <= p <= s.len(),
    ensures
        sp_parameter(s, p) == sp_parameter(t, p),
{
    if 0 <= p < s.len() {
        assert(s[p] == t[p]);
    }
    if p + 1 < s.len() {
        assert(s[p + 1] == t[p + 1]);
    }
    if p + 2 < s.len() {
        assert(s[p + 2] == t[p + 2]);
    }
    lemma_find_byte_frame(s, t, q, p + 2, 0x3e);
    crate::text::lemma_find_byte(s, p + 2, 0x3e);
    if let Some(b) = find_byte(s, p + 2, 0x3e) {
        if p + 3 <= b {
            assert(s.subrange(p + 3, b) =~= t.subrange(p + 3, b));
        }
        assert(s.subrange(p + 2, b) =~= t.subrange(p + 2, b));
    }
    if p + 1 <= s.len() {
        lemma_u32_frame(s, t, q, p + 1);
    }
}

/// A value is read from the bytes at and after its start only.
pub proof fn lemma_value_frame(s: Seq<u8>, t: Seq<u8>, q: int, p: int, signed: bool)
    requires
        agree_from(s, t, q),
        0 <= q <= p <= s.len(),
    ensures
        sp_value(s, p, signed) == sp_value(t, p, signed),
{
    lemma_number_frame(s, t, p, signed);
    lemma_parameter_frame(s, t, q, p);
    lemma_expression_frame(s, t, q, p);
}

pub proof fn lemma_unsigned_value_frame(s: Seq<u8>, t: Seq<u8>, q: int, p: int)
    requires
        agree_from(s, t, q),
        0 <= q <= p <= s.len(),
    ensures
        sp_unsigned_value(s, p) == sp_unsigned_value(t, p),
{
    lemma_u32_frame(s, t, q, p);
    lemma_parameter_frame(s, t, q, p);
    lemma_expression_frame(s, t, q, p);
}

/// A lettered value is read from the bytes at and after its letter only.
pub proof fn lemma_preceded_value_frame(s: Seq<u8>, t: Seq<u8>, q: int, p: int, letter: u8, signed: bool)
    requires
        agree_from(s, t, q),
        0 <= q <= p <= s.len(),
    ensures
        sp_preceded_value(s, p, letter, signed) == sp_preceded_value(t, p, letter, signed),
        sp_preceded_unsigned_value(s, p, letter) == sp_preceded_unsigned_value(t, p, letter),
{
    if p < s.len() {
        assert(s[p] == t[p]);
        lemma_space0_end_frame(s, t, q, p + 1);
        crate::text::lemma_space0_end(s, p + 1);
        lemma_value_frame(s, t, q, space0_end(s, p + 1), signed);
        lemma_unsigned_value_frame(s, t, q, space0_end(s, p + 1));
    }
}

/// `10` to the power `n`.
pub open spec fn pow10(n: nat) -> nat
    decreases n,
{
    if n == 0 {
        1
    } else {
        10 * pow10((n - 1) as nat)
    }
}

/// The digits of a number before and after the point, read as one integer: the number is
/// this integer divided by `10` to the power of the count of digits after the point.
pub open spec fn scaled(d: DecimalModel) -> nat {
    digits_val(d.integer + d.fraction)
}

/// `a` and `b` stand for the same number.
pub open spec fn same_number(a: DecimalModel, b: DecimalModel) -> bool {
    &&& a.negative == b.negative
    &&& scaled(a) * pow10(b.fraction.len()) == scaled(b) * pow10(a.fraction.len())
}

proof fn lemma_pow10_positive(n: nat)
    ensures
        pow10(n) >= 1,
    decreases n,
{
    if n > 0 {
        lemma_pow10_positive((n - 1) as nat);
    }
}

proof fn lemma_pow10_add(m: nat, n: nat)
    ensures
        pow10(m + n) == pow10(m) * pow10(n),
    decreases n,
{
    if n > 0 {
        let n1 = (n - 1) as nat;
        lemma_pow10_add(m, n1);
        assert(pow10(m + n) == 10 * pow10(m + n1));
        assert(pow10(n) == 10 * pow10(n1));
        assert(10 * (pow10(m) * pow10(n1)) == pow10(m) * (10 * pow10(n1))) by (nonlinear_arith);
        assert(pow10(m + n) == pow10(m) * pow10(n));
    } else {
        assert(pow10(0) == 1);
        assert(pow10(m + n) == pow10(m));
    }
}

proof fn lemma_pow10_monotone(m: nat, n: nat)
    requires
        m <= n,
    ensures
        pow10(m) <= pow10(n),
    decreases n,
{
    if m < n {
        lemma_pow10_monotone(m, (n - 1) as nat);
        lemma_pow10_positive((n - 1) as nat);
    }
}

/// Digits read after other digits shift them by their count.
proof fn lemma_digits_val_concat(a: Seq<u8>, b: Seq<u8>)
    ensures
        digits_val(a + b) == digits_val(a) * pow10(b.len()) + digits_val(b),
    decreases b.len(),
{
    if b.len() == 0 {
        assert(a + b =~= a);
        assert(pow10(0) == 1);
        assert(digits_val(b) == 0);
    } else {
        let c = a + b;
        let b1 = b.drop_last();
        assert(c.drop_last() =~= a + b1);
        assert(c.last() == b.last());
        lemma_digits_val_concat(a, b1);
        let x = (b.last() - 0x30) as nat;
        let va = digits_val(a);
        let vb1 = digits_val(b1);
        let q = pow10(b1.len());
        assert(digits_val(c) == (va * q + vb1) * 10 + x);
        assert(digits_val(b) == vb1 * 10 + x);
        assert(pow10(b.len()) == 10 * q);
        assert((va * q + vb1) * 10 + x == va * (10 * q) + (vb1 * 10 + x)) by (nonlinear_arith);
        assert(digits_val(c) == va * pow10(b.len()) + digits_val(b));
    }
}

/// `n` digits are worth less than `10` to the power `n`.
proof fn lemma_digits_val_bound(d: Seq<u8>)
    requires
        all_digits(d),
    ensures
        digits_val(d) < pow10(d.len()),
    decreases d.len(),
{
    if d.len() > 0 {
        let p = d.drop_last();
        assert(all_digits(p)) by {
            assert forall|i: int| 0 <= i < p.len() implies is_digit(#[trigger] p[i]) by {
                assert(p[i] == d[i]);
            }
        }
        lemma_digits_val_bound(p);
        assert(is_digit(d[d.len() - 1]));
        assert(digits_val(p) * 10 + 9 < pow10(d.len())) by (nonlinear_arith)
            requires
                digits_val(p) < pow10(p.len()),
                pow10(d.len()) == 10 * pow10(p.len()),
        ;
    }
}

/// Digits that start with one that is not `0` are worth at least `10` to the power of
/// their count less one.
proof fn lemma_digits_val_lower(d: Seq<u8>)
    requires
        all_digits(d),
        d.len() > 0,
        d[0] != 0x30,
    ensures
        digits_val(d) >= pow10((d.len() - 1) as nat),
{
    let head = d.subrange(0, 1);
    let tail = d.subrange(1, d.len() as int);
    assert(d =~= head + tail);
    lemma_digits_val_concat(head, tail);
    assert(head.drop_last() =~= Seq::<u8>::empty());
    assert(digits_val(Seq::<u8>::empty()) == 0);
    assert(head.last() == d[0]);
    assert(digits_val(head) == (d[0] - 0x30) as nat);
    assert(digits_val(head) >= 1);
    assert(digits_val(head) * pow10(tail.len()) >= pow10(tail.len())) by (nonlinear_arith)
        requires
            digits_val(head) >= 1,
    ;
}

/// Two runs of digits of one length and one value are the same.
proof fn lemma_digits_val_injective(a: Seq<u8>, b: Seq<u8>)
    requires
        all_digits(a),
        all_digits(b),
        a.len() == b.len(),
        digits_val(a) == digits_val(b),
    ensures
        a == b,
    decreases a.len(),
{
    if a.len() > 0 {
        let pa = a.drop_last();
        let pb = b.drop_last();
        assert(is_digit(a[a.len() - 1]) && is_digit(b[b.len() - 1]));
        let x = (a.last() - 0x30) as nat;
        let y = (b.last() - 0x30) as nat;
        assert(digits_val(pa) * 10 + x == digits_val(pb) * 10 + y);
        assert(x == y && digits_val(pa) == digits_val(pb)) by (nonlinear_arith)
            requires
                digits_val(pa) * 10 + x == digits_val(pb) * 10 + y,
                x < 10,
                y < 10,
        ;
        assert(all_digits(pa)) by {
            assert forall|i: int| 0 <= i < pa.len() implies is_digit(#[trigger] pa[i]) by {
                assert(pa[i] == a[i]);
            }
        }
        assert(all_digits(pb)) by {
            assert forall|i: int| 0 <= i < pb.len() implies is_digit(#[trigger] pb[i]) by {
                assert(pb[i] == b[i]);
            }
        }
        lemma_digits_val_injective(pa, pb);
        assert(a =~= pa.push(a.last()));
        assert(b =~= pb.push(b.last()));
    } else {
        assert(a =~= b);
    }
}

/// Two runs of digits without a leading `0` and of one value are the same.
proof fn lemma_integer_digits_unique(a: Seq<u8>, b: Seq<u8>)
    requires
        all_digits(a),
        all_digits(b),
        a.len() > 0 ==> a[0] != 0x30,
        b.len() > 0 ==> b[0] != 0x30,
        digits_val(a) == digits_val(b),
    ensures
        a == b,
{
    lemma_digits_val_bound(a);
    lemma_digits_val_bound(b);
    if a.len() > 0 {
        lemma_digits_val_lower(a);
    }
    if b.len() > 0 {
        lemma_digits_val_lower(b);
    }
    if a.len() < b.len() {
        lemma_pow10_monotone(a.len(), (b.len() - 1) as nat);
    } else if b.len() < a.len() {
        lemma_pow10_monotone(b.len(), (a.len() - 1) as nat);
    }
    lemma_digits_val_injective(a, b);
}

/// A canonical number whose digits end in `0` has no digits after the point.
proof fn lemma_scaled_last_digit(d: DecimalModel)
    requires
        canonical(d),
        d.fraction.len() > 0,
    ensures
        scaled(d) % 10 != 0,
{
    let c = d.integer + d.fraction;
    assert(c.last() == d.fraction.last());
    assert(is_digit(d.fraction[d.fraction.len() - 1]));
    let x = (c.last() - 0x30) as nat;
    assert(scaled(d) == digits_val(c.drop_last()) * 10 + x);
    assert((digits_val(c.drop_last()) * 10 + x) % 10 == x) by (nonlinear_arith)
        requires
            x < 10,
    ;
}

/// A number has one canonical form: two canonical numbers that stand for the same number
/// are equal.
pub proof fn lemma_canonical_unique(a: DecimalModel, b: DecimalModel)
    requires
        canonical(a),
        canonical(b),
        same_number(a, b),
    ensures
        a == b,
{
    let ka = a.fraction.len();
    let kb = b.fraction.len();
    let na = scaled(a);
    let nb = scaled(b);
    lemma_pow10_positive(ka);
    lemma_pow10_positive(kb);
    if ka < kb {
        let m = (kb - ka) as nat;
        lemma_pow10_add(ka, m);
        assert(nb == na * pow10(m)) by (nonlinear_arith)
            requires
                na * pow10(kb) == nb * pow10(ka),
                pow10(kb) == pow10(ka) * pow10(m),
                pow10(ka) >= 1,
        ;
        assert(pow10(m) == 10 * pow10((m - 1) as nat));
        let y = na * pow10((m - 1) as nat);
        assert(nb == y * 10) by (nonlinear_arith)
            requires
                nb == na * pow10(m),
                pow10(m) == 10 * pow10((m - 1) as nat),
                y == na * pow10((m - 1) as nat),
        ;
        assert((y * 10) % 10 == 0) by (nonlinear_arith);
        lemma_scaled_last_digit(b);
    } else if kb < ka {
        let m = (ka - kb) as nat;
        lemma_pow10_add(kb, m);
        assert(na == nb * pow10(m)) by (nonlinear_arith)
            requires
                na * pow10(kb) == nb * pow10(ka),
                pow10(ka) == pow10(kb) * pow10(m),
                pow10(kb) >= 1,
        ;
        assert(pow10(m) == 10 * pow10((m - 1) as nat));
        let y = nb * pow10((m - 1) as nat);
        assert(na == y * 10) by (nonlinear_arith)
            requires
                na == nb * pow10(m),
                pow10(m) == 10 * pow10((m - 1) as nat),
                y == nb * pow10((m - 1) as nat),
        ;
        assert((y * 10) % 10 == 0) by (nonlinear_arith);
        lemma_scaled_last_digit(a);
    } else {
        let k = ka;
        assert(na == nb) by (nonlinear_arith)
            requires
                na * pow10(k) == nb * pow10(k),
                pow10(k) >= 1,
        ;
        lemma_digits_val_concat(a.integer, a.fraction);
        lemma_digits_val_concat(b.integer, b.fraction);
        lemma_digits_val_bound(a.fraction);
        lemma_digits_val_bound(b.fraction);
        let ia = digits_val(a.integer);
        let ib = digits_val(b.integer);
        let fa = digits_val(a.fraction);
        let fb = digits_val(b.fraction);
        assert(ia == ib && fa == fb) by (nonlinear_arith)
            requires
                ia * pow10(k) + fa == ib * pow10(k) + fb,
                fa < pow10(k),
                fb < pow10(k),
        ;
        lemma_digits_val_injective(a.fraction, b.fraction);
        lemma_integer_digits_unique(a.integer, b.integer);
    }
}

/// Two numbers read from text are equal exactly when they stand for the same number,
/// however each is written: with leading zeros, with trailing zeros after the point, with a
/// plus sign.
pub proof fn lemma_parsed_numbers_equal(s: Seq<u8>, p: int, ss: bool, t: Seq<u8>, q: int, ts: bool)
    requires
        0 <= p <= s.len(),
        0 <= q <= t.len(),
    ensures
        sp_number(s, p, ss) matches Some((a, _)) ==> (sp_number(t, q, ts) matches Some((b, _))
            ==> (a == b <==> same_number(a, b))),
{
    lemma_number_canonical(s, p, ss);
    lemma_number_canonical(t, q, ts);
    if let Some((a, _)) = sp_number(s, p, ss) {
        if let Some((b, _)) = sp_number(t, q, ts) {
            if same_number(a, b) {
                lemma_canonical_unique(a, b);
            }
        }
    }
}

/// Builds the canonical decimal with digits `s[a..b]` and `s[c..d]`.
fn make_decimal(s: &[u8], negative: bool, a: usize, b: usize, c: usize, d: usize) -> (r: Decimal)
    requires
        a <= b <= s.len(),
        c <= d <= s.len(),
    ensures
        r@ == decimal_of(s@, negative, a as int, b as int, c as int, d as int),
{
    proof {
        lemma_first_nonzero(s@, a as int, b as int);
        lemma_nonzero_end(s@, c as int, d as int);
    }
    let mut i0 = a;
    while i0 < b && s[i0] == 0x30
        invariant
            a <= i0 <= b <= s.len(),
            first_nonzero(s@, a as int, b as int) == first_nonzero(s@, i0 as int, b as int),
        decreases b - i0,
    {
        i0 = i0 + 1;
    }
    let mut f1 = d;
    while f1 > c && s[f1 - 1] == 0x30
        invariant
            c <= f1 <= d <= s.len(),
            nonzero_end(s@, c as int, d as int) == nonzero_end(s@, c as int, f1 as int),
        decreases f1 - c,
    {
        f1 = f1 - 1;
    }
    Decimal {
        negative: negative && (i0 < b || c < f1),
        integer: copy_range(s, i0, b),
        fraction: copy_range(s, c, f1),
    }
}

/// Parses a decimal number at `p` (see [`sp_number`]).
pub fn parse_number(s: &[u8], p: usize, signed: bool) -> (r: Option<(Decimal, usize)>)
    requires
        p <= s.len(),
    ensures
        parsed_as(r, sp_number(s@, p as int, signed)),
        r matches Some((_, e)) ==> p < e <= s.len() && s@[e - 1] < 0x80,
        r matches Some((d, _)) ==> all_digits(d.integer@) && all_digits(d.fraction@),
{
    let has_sign = signed && p < s.len() && (s[p] == 0x2b || s[p] == 0x2d);
    let q = if has_sign {
        p + 1
    } else {
        p
    };
    let negative = has_sign && s[p] == 0x2d;
    let ie = skip_digits(s, q);
    let dot = ie < s.len() && s[ie] == 0x2e;
    let fs = if dot {
        ie + 1
    } else {
        ie
    };
    let fe = if dot {
        skip_digits(s, ie + 1)
    } else {
        ie
    };
    proof {
        lemma_digits_end(s@, q as int);
        if dot {
            lemma_digits_end(s@, ie + 1);
        }
    }
    if ie == q && fe == fs {
        None
    } else {
        let d = make_decimal(s, negative, q, ie, fs, fe);
        proof {
            lemma_first_nonzero(s@, q as int, ie as int);
            lemma_nonzero_end(s@, fs as int, fe as int);
        }
        Some((d, fe))
    }
}

/// Parses a `u32` literal at `p` (see [`sp_u32`]).
pub fn parse_u32(s: &[u8], p: usize) -> (r: Option<(u32, usize)>)
    requires
        p <= s.len(),
    ensures
        match sp_u32(s@, p as int) {
            Some((n, e)) => r matches Some((m, f)) && m == n && f == e,
            None => r is None,
        },
        r matches Some((_, e)) ==> p < e <= s.len() && s@[e - 1] < 0x80,
{
    let e = skip_digits(s, p);
    proof {
        lemma_digits_end(s@, p as int);
    }
    if e == p {
        return None;
    }
    let v = digits_value(s, p, e, 0x1_0000_0000);
    if v > 0xffff_ffff {
        None
    } else {
        Some((v as u32, e))
    }
}

/// Parses a parameter reference at `p` (see [`sp_parameter`]).
pub fn parse_parameter(i: &str, p: usize) -> (r: Option<(Parameter, usize)>)
    requires
        p <= i.spec_bytes().len(),
    ensures
        parsed_as(r, sp_parameter(i.spec_bytes(), p as int)),
        r matches Some((_, e)) ==> p < e <= i.spec_bytes().len() && i.spec_bytes()[e - 1] < 0x80,
{
    let s = i.as_bytes();
    if !(p < s.len() && s[p] == 0x23) {
        return None;
    }
    if p + 1 < s.len() && s[p + 1] == 0x3c {
        match find(s, p + 2, 0x3e) {
            Some(b) => {
                if p + 2 < b && s[p + 2] == 0x5f {
                    let name = substr(i, p + 3, b);
                    Some((Parameter::Global(name.to_owned()), b + 1))
                } else {
                    let name = substr(i, p + 2, b);
                    Some((Parameter::Local(name.to_owned()), b + 1))
                }
            },
            None => None,
        }
    } else {
        match parse_u32(s, p + 1) {
            Some((n, e)) => Some((Parameter::Numbered(n), e)),
            None => None,
        }
    }
}

/// Parses a value at `p` (see [`sp_value`]).
pub fn parse_value(i: &str, p: usize, signed: bool) -> (r: Option<(Value, usize)>)
    requires
        p <= i.spec_bytes().len(),
    ensures
        parsed_as(r, sp_value(i.spec_bytes(), p as int, signed)),
        r matches Some((_, e)) ==> p < e <= i.spec_bytes().len() && i.spec_bytes()[e - 1] < 0x80,
{
    let s = i.as_bytes();
    if let Some((d, e)) = parse_number(s, p, signed) {
        return Some((Value::Literal(d), e));
    }
    if let Some((m, e)) = parse_parameter(i, p) {
        return Some((Value::Parameter(m), e));
    }
    if let Some((x, e)) = parse_expression(i, p) {
        return Some((Value::Expression(x), e));
    }
    None
}

/// Parses an unsigned value at `p` (see [`sp_unsigned_value`]).
pub fn parse_unsigned_value(i: &str, p: usize) -> (r: Option<(UnsignedValue, usize)>)
    requires
        p <= i.spec_bytes().len(),
    ensures
        parsed_as(r, sp_unsigned_value(i.spec_bytes(), p as int)),
        r matches Some((_, e)) ==> p < e <= i.spec_bytes().len() && i.spec_bytes()[e - 1] < 0x80,
{
    let s = i.as_bytes();
    if let Some((n, e)) = parse_u32(s, p) {
        return Some((UnsignedValue::Literal(n), e));
    }
    if let Some((m, e)) = parse_parameter(i, p) {
        return Some((UnsignedValue::Parameter(m), e));
    }
    if let Some((x, e)) = parse_expression(i, p) {
        return Some((UnsignedValue::Expression(x), e));
    }
    None
}

/// Parses a word letter followed by a value (see [`sp_preceded_value`]).
pub fn parse_preceded_value(i: &str, p: usize, letter: u8, signed: bool) -> (r: Option<(Value, usize)>)
    requires
        p <= i.spec_bytes().len(),
    ensures
        parsed_as(r, sp_preceded_value(i.spec_bytes(), p as int, letter, signed)),
        r matches Some((_, e)) ==> p < e <= i.spec_bytes().len() && i.spec_bytes()[e - 1] < 0x80,
{
    let s = i.as_bytes();
    if char_no_case(s, p, letter) {
        let q = skip_space(s, p + 1);
        parse_value(i, q, signed)
    } else {
        None
    }
}

/// Parses a word letter followed by an unsigned value (see [`sp_preceded_unsigned_value`]).
pub fn parse_preceded_unsigned_value(i: &str, p: usize, letter: u8) -> (r: Option<(UnsignedValue, usize)>)
    requires
        p <= i.spec_bytes().len(),
    ensures
        parsed_as(r, sp_preceded_unsigned_value(i.spec_bytes(), p as int, letter)),
        r matches Some((_, e)) ==> p < e <= i.spec_bytes().len() && i.spec_bytes()[e - 1] < 0x80,
{
    let s = i.as_bytes();
    if char_no_case(s, p, letter) {
        let q = skip_space(s, p + 1);
        parse_unsigned_value(i, q)
    } else {
        None
    }
}

} // verus!
