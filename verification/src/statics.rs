//! Folding of expressions to values.
//!
//! Numbers are 64-bit floats, by their bits.  Comparing and negating them is
//! done here.  Sums, products and the like are asked for: an evaluation that
//! lacks one says which, and is repeated with the answer in the table.

use crate::ast::{
    BinaryOp, Element, Expr, Facts, Kind, LogicalOp, Number, NumberV, Prop, Quasi, StaticTextValue, Symbol,
    UnaryOp,
};
use crate::ir::{is_zero, BlockContext, ContextV, StaticTextV};
use crate::make::copied;
use crate::order::{text_less, utf16_injective};
use crate::outside::same;
use crate::text::{chars_of, joined, starts_with, strip_prefix};
use std::cmp::Ordering;
use std::rc::Rc;
use vstd::prelude::*;

verus! {

/// A value that an expression folds to.
#[derive(Debug)]
pub enum StaticPrimitiveValue {
    String(String),
    Number(Number),
    Boolean(bool),
    Null,
    Undefined,
}

pub ghost enum PrimitiveV {
    String(Seq<char>),
    Number(NumberV),
    Boolean(bool),
    Null,
    Undefined,
}

impl View for StaticPrimitiveValue {
    type V = PrimitiveV;

    open spec fn view(&self) -> PrimitiveV {
        match *self {
            StaticPrimitiveValue::String(text) => PrimitiveV::String(text@),
            StaticPrimitiveValue::Number(number) => PrimitiveV::Number(number@),
            StaticPrimitiveValue::Boolean(value) => PrimitiveV::Boolean(value),
            StaticPrimitiveValue::Null => PrimitiveV::Null,
            StaticPrimitiveValue::Undefined => PrimitiveV::Undefined,
        }
    }
}

/// An operation on two floats whose result is a float.
#[derive(Clone, Copy, Debug, PartialEq, Eq, Structural)]
pub enum Arithmetic {
    Sum,
    Difference,
    Product,
    Quotient,
    Remainder,
    Power,
}

/// The result of an operation on two floats.
#[derive(Debug)]
pub struct Answer {
    pub op: Arithmetic,
    pub left: u64,
    pub right: u64,
    pub result: Number,
}

/// What came of an evaluation: a value, the knowledge that there is none, or an
/// operation whose result is needed.
#[derive(Debug)]
pub enum Evaluation {
    Value(StaticPrimitiveValue),
    Unknown,
    Needs { op: Arithmetic, left: u64, right: u64 },
}

pub ghost enum EvaluationV {
    Value(PrimitiveV),
    Unknown,
    Needs { op: Arithmetic, left: u64, right: u64 },
}

impl View for Evaluation {
    type V = EvaluationV;

    open spec fn view(&self) -> EvaluationV {
        match *self {
            Evaluation::Value(value) => EvaluationV::Value(value@),
            Evaluation::Unknown => EvaluationV::Unknown,
            Evaluation::Needs { op, left, right } => EvaluationV::Needs { op, left, right },
        }
    }
}

// ---------------------------------------------------------------------------
// Floats
// ---------------------------------------------------------------------------

/// The bits without the sign.
pub open spec fn magnitude(bits: u64) -> int {
    bits as int % 0x8000_0000_0000_0000
}

/// Not a number.
pub open spec fn is_nan(bits: u64) -> bool {
    magnitude(bits) > 0x7ff0_0000_0000_0000
}

/// A number that orders floats: the magnitude with the sign.
pub open spec fn rank(bits: u64) -> int {
    if bits >= 0x8000_0000_0000_0000 {
        -magnitude(bits)
    } else {
        magnitude(bits)
    }
}

/// Equality of floats.
pub open spec fn float_equal(left: u64, right: u64) -> bool {
    !is_nan(left) && !is_nan(right) && rank(left) == rank(right)
}

/// The order of floats.
pub open spec fn float_less(left: u64, right: u64) -> bool {
    !is_nan(left) && !is_nan(right) && rank(left) < rank(right)
}

impl NumberV {
    /// The number with the other sign.
    pub open spec fn negated(self) -> NumberV {
        NumberV {
            bits: if self.bits >= 0x8000_0000_0000_0000 {
                (self.bits - 0x8000_0000_0000_0000) as u64
            } else {
                (self.bits + 0x8000_0000_0000_0000) as u64
            },
            text: if is_nan(self.bits) {
                self.text
            } else if starts_with(self.text, "-"@) {
                self.text.skip("-"@.len() as int)
            } else {
                "-"@ + self.text
            },
        }
    }
}

fn magnitude_of(bits: u64) -> (m: i64)
    ensures
        m == magnitude(bits),
        0 <= m,
{
    if bits >= 0x8000_0000_0000_0000 {
        (bits - 0x8000_0000_0000_0000) as i64
    } else {
        bits as i64
    }
}

fn nan(bits: u64) -> (yes: bool)
    ensures
        yes == is_nan(bits),
{
    magnitude_of(bits) > 0x7ff0_0000_0000_0000
}

fn rank_of(bits: u64) -> (r: i64)
    ensures
        r == rank(bits),
{
    if bits >= 0x8000_0000_0000_0000 {
        -magnitude_of(bits)
    } else {
        magnitude_of(bits)
    }
}

fn floats_equal(left: u64, right: u64) -> (yes: bool)
    ensures
        yes == float_equal(left, right),
{
    !nan(left) && !nan(right) && rank_of(left) == rank_of(right)
}

fn floats_less(left: u64, right: u64) -> (yes: bool)
    ensures
        yes == float_less(left, right),
{
    !nan(left) && !nan(right) && rank_of(left) < rank_of(right)
}

fn negate(number: &Number) -> (negated: Number)
    ensures
        negated@ == number@.negated(),
{
    let bits: u64 = if number.bits >= 0x8000_0000_0000_0000 {
        number.bits - 0x8000_0000_0000_0000
    } else {
        number.bits + 0x8000_0000_0000_0000
    };
    let text = if nan(number.bits) {
        number.text.clone()
    } else {
        match strip_prefix(number.text.as_str(), "-") {
            Some(rest) => copied(rest),
            None => joined("-", number.text.as_str()),
        }
    };
    Number { bits, text }
}

/// Zero of either sign equals zero, and nothing else does.
pub proof fn zeros_are_equal(bits: u64)
    ensures
        is_zero(bits) == float_equal(bits, 0),
{
}

/// Of two floats that are numbers, one is less or they are equal.
pub proof fn floats_are_ordered(left: u64, right: u64)
    requires
        !is_nan(left),
        !is_nan(right),
    ensures
        float_less(left, right) || float_less(right, left) || float_equal(left, right),
        !(float_less(left, right) && float_less(right, left)),
        float_equal(left, right) ==> !float_less(left, right),
{
}

/// Negating a number twice gives its bits back.
pub proof fn negation_is_undone(number: NumberV)
    ensures
        number.negated().negated().bits == number.bits,
{
}

// ---------------------------------------------------------------------------
// Strings
// ---------------------------------------------------------------------------

/// The units of a character in UTF-16.
pub open spec fn utf16_char(c: char) -> Seq<u16> {
    if c <= '\u{ffff}' {
        seq![c as u16]
    } else {
        let rest = c as int - 0x1_0000;
        seq![(0xd800 + rest / 0x400) as u16, (0xdc00 + rest % 0x400) as u16]
    }
}

/// The units of a text in UTF-16.
pub open spec fn utf16(text: Seq<char>) -> Seq<u16>
    decreases text.len(),
{
    if text.len() == 0 {
        seq![]
    } else {
        utf16(text.drop_last()) + utf16_char(text.last())
    }
}

/// The order of sequences by their first difference, a prefix before what it
/// is a prefix of.
pub open spec fn units_less(left: Seq<u16>, right: Seq<u16>) -> bool
    decreases left.len(),
{
    if right.len() == 0 {
        false
    } else if left.len() == 0 {
        true
    } else if left[0] != right[0] {
        left[0] < right[0]
    } else {
        units_less(left.skip(1), right.skip(1))
    }
}

fn push_units(units: &mut Vec<u16>, c: char)
    ensures
        final(units)@ == old(units)@ + utf16_char(c),
{
    if c <= '\u{ffff}' {
        units.push(c as u16);
    } else {
        let rest: u32 = c as u32 - 0x1_0000;
        units.push((0xd800 + rest / 0x400) as u16);
        units.push((0xdc00 + rest % 0x400) as u16);
    }
    proof {
        assert(units@ =~= old(units)@ + utf16_char(c));
    }
}

fn units_of(text: &str) -> (units: Vec<u16>)
    ensures
        units@ == utf16(text@),
{
    let chars = chars_of(text);
    let mut units: Vec<u16> = Vec::new();
    let mut i: usize = 0;
    while i < chars.len()
        invariant
            i <= chars.len(),
            chars@ == text@,
            units@ == utf16(text@.take(i as int)),
        decreases chars.len() - i,
    {
        push_units(&mut units, chars[i]);
        proof {
            assert(text@.take(i + 1).drop_last() =~= text@.take(i as int));
        }
        i = i + 1;
    }
    proof {
        assert(text@.take(i as int) =~= text@);
    }
    units
}

/// How one sequence of units stands to another.
#[derive(Clone, Copy, Debug, PartialEq, Eq, Structural)]
pub enum UnitOrder {
    Before,
    Same,
    After,
}

fn order_of_units(a: &Vec<u16>, b: &Vec<u16>) -> (order: UnitOrder)
    ensures
        match order {
            UnitOrder::Before => units_less(a@, b@),
            UnitOrder::After => units_less(b@, a@),
            UnitOrder::Same => a@ == b@,
        },
{
    let mut i: usize = 0;
    proof {
        assert(a@.skip(0) =~= a@);
        assert(b@.skip(0) =~= b@);
    }
    while i < a.len() && i < b.len()
        invariant
            i <= a.len(),
            i <= b.len(),
            forall|k: int| 0 <= k < i ==> a@[k] == b@[k],
            units_less(a@, b@) == units_less(a@.skip(i as int), b@.skip(i as int)),
            units_less(b@, a@) == units_less(b@.skip(i as int), a@.skip(i as int)),
        decreases a.len() - i,
    {
        proof {
            assert(a@.skip(i as int)[0] == a@[i as int]);
            assert(b@.skip(i as int)[0] == b@[i as int]);
            assert(a@.skip(i as int).skip(1) =~= a@.skip(i + 1));
            assert(b@.skip(i as int).skip(1) =~= b@.skip(i + 1));
        }
        if a[i] < b[i] {
            return UnitOrder::Before;
        }
        if a[i] > b[i] {
            return UnitOrder::After;
        }
        i = i + 1;
    }
    if i < b.len() {
        UnitOrder::Before
    } else if i < a.len() {
        UnitOrder::After
    } else {
        proof {
            assert(a@ =~= b@);
        }
        UnitOrder::Same
    }
}

/// Compares texts as the language does, by their UTF-16 units.
pub fn compare_utf16_strings(left: &str, right: &str) -> (ordering: Ordering)
    ensures
        match ordering {
            Ordering::Less => text_less(left@, right@),
            Ordering::Greater => text_less(right@, left@),
            Ordering::Equal => left@ == right@,
        },
{
    proof {
        if utf16(left@) == utf16(right@) {
            utf16_injective(left@, right@);
        }
    }
    match order_of_units(&units_of(left), &units_of(right)) {
        UnitOrder::Before => Ordering::Less,
        UnitOrder::After => Ordering::Greater,
        UnitOrder::Same => Ordering::Equal,
    }
}

/// No text comes before itself.
pub proof fn units_less_irreflexive(units: Seq<u16>)
    ensures
        !units_less(units, units),
    decreases units.len(),
{
    if units.len() > 0 {
        units_less_irreflexive(units.skip(1));
    }
}

/// Of two texts at most one comes before the other.
pub proof fn units_less_asymmetric(left: Seq<u16>, right: Seq<u16>)
    requires
        units_less(left, right),
    ensures
        !units_less(right, left),
    decreases left.len(),
{
    if left.len() > 0 && left[0] == right[0] {
        units_less_asymmetric(left.skip(1), right.skip(1));
    }
}

// ---------------------------------------------------------------------------
// Values
// ---------------------------------------------------------------------------

impl PrimitiveV {
    pub open spec fn of_text(value: StaticTextV) -> PrimitiveV {
        match value {
            StaticTextV::String(text) => PrimitiveV::String(text),
            StaticTextV::Number(number) => PrimitiveV::Number(number),
            StaticTextV::Boolean(value) => PrimitiveV::Boolean(value),
        }
    }

    /// Only strings and numbers are text.
    pub open spec fn to_text(self) -> Option<StaticTextV> {
        match self {
            PrimitiveV::String(text) => Some(StaticTextV::String(text)),
            PrimitiveV::Number(number) => Some(StaticTextV::Number(number)),
            _ => None,
        }
    }

    pub open spec fn js_text(self) -> Seq<char> {
        match self {
            PrimitiveV::String(text) => text,
            PrimitiveV::Number(number) => number.shown(),
            PrimitiveV::Boolean(value) => if value {
                "true"@
            } else {
                "false"@
            },
            PrimitiveV::Null => "null"@,
            PrimitiveV::Undefined => "undefined"@,
        }
    }

    pub open spec fn truthy(self) -> bool {
        match self {
            PrimitiveV::String(text) => text.len() > 0,
            PrimitiveV::Number(number) => !is_zero(number.bits) && !is_nan(number.bits),
            PrimitiveV::Boolean(value) => value,
            _ => false,
        }
    }

    pub open spec fn nullish(self) -> bool {
        self is Null || self is Undefined
    }

    pub open spec fn strictly_equals(self, other: PrimitiveV) -> bool {
        match (self, other) {
            (PrimitiveV::String(left), PrimitiveV::String(right)) => left == right,
            (PrimitiveV::Number(left), PrimitiveV::Number(right)) => float_equal(
                left.bits,
                right.bits,
            ),
            (PrimitiveV::Boolean(left), PrimitiveV::Boolean(right)) => left == right,
            (PrimitiveV::Null, PrimitiveV::Null) => true,
            (PrimitiveV::Undefined, PrimitiveV::Undefined) => true,
            _ => false,
        }
    }

    /// Loose equality, where it needs no conversion.
    pub open spec fn loosely_equals(self, other: PrimitiveV) -> Option<bool> {
        if self.nullish() && other.nullish() {
            Some(true)
        } else if (self is String && other is String) || (self is Number && other is Number) || (
        self is Boolean && other is Boolean) {
            Some(self.strictly_equals(other))
        } else {
            None
        }
    }

    /// A comparison of two numbers or two strings.
    pub open spec fn compares(self, op: BinaryOp, other: PrimitiveV) -> Option<bool> {
        match (self, other) {
            (PrimitiveV::Number(left), PrimitiveV::Number(right)) => Some(
                match op {
                    BinaryOp::LessThan => float_less(left.bits, right.bits),
                    BinaryOp::LessEqualThan => float_less(left.bits, right.bits) || float_equal(
                        left.bits,
                        right.bits,
                    ),
                    BinaryOp::GreaterThan => float_less(right.bits, left.bits),
                    BinaryOp::GreaterEqualThan => float_less(right.bits, left.bits) || float_equal(
                        left.bits,
                        right.bits,
                    ),
                    _ => false,
                },
            ),
            (PrimitiveV::String(left), PrimitiveV::String(right)) => match op {
                BinaryOp::LessThan => Some(units_less(utf16(left), utf16(right))),
                BinaryOp::LessEqualThan => Some(!units_less(utf16(right), utf16(left))),
                BinaryOp::GreaterThan => Some(units_less(utf16(right), utf16(left))),
                BinaryOp::GreaterEqualThan => Some(!units_less(utf16(left), utf16(right))),
                _ => None,
            },
            _ => None,
        }
    }
}

impl StaticPrimitiveValue {
    fn from_static_text_value(value: StaticTextValue) -> (primitive: Self)
        ensures
            primitive@ == PrimitiveV::of_text(value@),
    {
        match value {
            StaticTextValue::String(text) => StaticPrimitiveValue::String(text),
            StaticTextValue::Number(number) => StaticPrimitiveValue::Number(number),
            StaticTextValue::Boolean(value) => StaticPrimitiveValue::Boolean(value),
        }
    }

    fn into_static_text_value(self) -> (text: Option<StaticTextValue>)
        ensures
            (match text {
                Some(text) => Some(text@),
                None => None,
            }) == self@.to_text(),
    {
        match self {
            StaticPrimitiveValue::String(text) => Some(StaticTextValue::String(text)),
            StaticPrimitiveValue::Number(number) => Some(StaticTextValue::Number(number)),
            _ => None,
        }
    }

    /// The text that the value prints as.
    pub fn as_js_text(&self) -> (text: String)
        ensures
            text@ == self@.js_text(),
    {
        match self {
            StaticPrimitiveValue::String(text) => text.clone(),
            StaticPrimitiveValue::Number(number) => number.shown(),
            StaticPrimitiveValue::Boolean(value) => if *value {
                copied("true")
            } else {
                copied("false")
            },
            StaticPrimitiveValue::Null => copied("null"),
            StaticPrimitiveValue::Undefined => copied("undefined"),
        }
    }

    pub fn is_truthy(&self) -> (yes: bool)
        ensures
            yes == self@.truthy(),
    {
        match self {
            StaticPrimitiveValue::String(text) => !text.as_str().is_empty(),
            StaticPrimitiveValue::Number(number) => !number.is_zero() && !nan(number.bits),
            StaticPrimitiveValue::Boolean(value) => *value,
            _ => false,
        }
    }

    pub fn is_nullish(&self) -> (yes: bool)
        ensures
            yes == self@.nullish(),
    {
        match self {
            StaticPrimitiveValue::Null => true,
            StaticPrimitiveValue::Undefined => true,
            _ => false,
        }
    }

    pub fn strict_equals(&self, other: &Self) -> (yes: bool)
        ensures
            yes == self@.strictly_equals(other@),
    {
        match (self, other) {
            (StaticPrimitiveValue::String(left), StaticPrimitiveValue::String(right)) => same(
                left.as_str(),
                right.as_str(),
            ),
            (StaticPrimitiveValue::Number(left), StaticPrimitiveValue::Number(right)) => floats_equal(
                left.bits,
                right.bits,
            ),
            (StaticPrimitiveValue::Boolean(left), StaticPrimitiveValue::Boolean(right)) => *left
                == *right,
            (StaticPrimitiveValue::Null, StaticPrimitiveValue::Null) => true,
            (StaticPrimitiveValue::Undefined, StaticPrimitiveValue::Undefined) => true,
            _ => false,
        }
    }
}

/// Whether two texts compare as an operator asks.
fn compare_texts(op: BinaryOp, left: &str, right: &str) -> (holds: Option<bool>)
    ensures
        holds == PrimitiveV::String(left@).compares(op, PrimitiveV::String(right@)),
{
    let ordering = compare_utf16_strings(left, right);
    let less = match ordering {
        Ordering::Less => true,
        _ => false,
    };
    let greater = match ordering {
        Ordering::Greater => true,
        _ => false,
    };
    proof {
        let a = utf16(left@);
        let b = utf16(right@);
        if units_less(a, b) {
            units_less_asymmetric(a, b);
        }
        units_less_irreflexive(a);
    }
    match op {
        BinaryOp::LessThan => Some(less),
        BinaryOp::LessEqualThan => Some(!greater),
        BinaryOp::GreaterThan => Some(greater),
        BinaryOp::GreaterEqualThan => Some(!less),
        _ => None,
    }
}

fn compare_numeric_values(op: BinaryOp, left: u64, right: u64) -> (holds: bool)
    ensures
        holds == (match op {
            BinaryOp::LessThan => float_less(left, right),
            BinaryOp::LessEqualThan => float_less(left, right) || float_equal(left, right),
            BinaryOp::GreaterThan => float_less(right, left),
            BinaryOp::GreaterEqualThan => float_less(right, left) || float_equal(left, right),
            _ => false,
        }),
{
    match op {
        BinaryOp::LessThan => floats_less(left, right),
        BinaryOp::LessEqualThan => floats_less(left, right) || floats_equal(left, right),
        BinaryOp::GreaterThan => floats_less(right, left),
        BinaryOp::GreaterEqualThan => floats_less(right, left) || floats_equal(left, right),
        _ => false,
    }
}

/// Whether two values compare as an operator asks.
pub fn compare_primitive_values(
    op: BinaryOp,
    left: &StaticPrimitiveValue,
    right: &StaticPrimitiveValue,
) -> (holds: Option<bool>)
    ensures
        holds == left@.compares(op, right@),
{
    match (left, right) {
        (StaticPrimitiveValue::Number(left), StaticPrimitiveValue::Number(right)) => Some(
            compare_numeric_values(op, left.bits, right.bits),
        ),
        (StaticPrimitiveValue::String(left), StaticPrimitiveValue::String(right)) => compare_texts(
            op,
            left.as_str(),
            right.as_str(),
        ),
        _ => None,
    }
}

/// Loose equality, where it needs no conversion.
pub fn loose_equals(left: &StaticPrimitiveValue, right: &StaticPrimitiveValue) -> (equal: Option<
    bool,
>)
    ensures
        equal == left@.loosely_equals(right@),
{
    if left.is_nullish() && right.is_nullish() {
        return Some(true);
    }
    match (left, right) {
        (StaticPrimitiveValue::String(_), StaticPrimitiveValue::String(_)) => Some(
            left.strict_equals(right),
        ),
        (StaticPrimitiveValue::Number(_), StaticPrimitiveValue::Number(_)) => Some(
            left.strict_equals(right),
        ),
        (StaticPrimitiveValue::Boolean(_), StaticPrimitiveValue::Boolean(_)) => Some(
            left.strict_equals(right),
        ),
        _ => None,
    }
}

// ---------------------------------------------------------------------------
// Evaluation
// ---------------------------------------------------------------------------

/// The answer to an operation, where the table has it.
pub open spec fn answer_v(table: Seq<Answer>, op: Arithmetic, left: u64, right: u64) -> Option<
    NumberV,
>
    decreases table.len(),
{
    if table.len() == 0 {
        None
    } else if table[0].op == op && table[0].left == left && table[0].right == right {
        Some(table[0].result@)
    } else {
        answer_v(table.skip(1), op, left, right)
    }
}

/// The result of an operation on numbers, or the need for it.
pub open spec fn compute_v(
    table: Seq<Answer>,
    op: Arithmetic,
    left: PrimitiveV,
    right: PrimitiveV,
) -> EvaluationV {
    match (left, right) {
        (PrimitiveV::Number(left), PrimitiveV::Number(right)) => match answer_v(
            table,
            op,
            left.bits,
            right.bits,
        ) {
            Some(result) => EvaluationV::Value(PrimitiveV::Number(result)),
            None => EvaluationV::Needs { op, left: left.bits, right: right.bits },
        },
        _ => EvaluationV::Unknown,
    }
}

pub open spec fn known_bool(value: Option<bool>) -> EvaluationV {
    match value {
        Some(value) => EvaluationV::Value(PrimitiveV::Boolean(value)),
        None => EvaluationV::Unknown,
    }
}

/// An operator on one value.
pub open spec fn unary_value(op: UnaryOp, value: PrimitiveV) -> EvaluationV {
    match op {
        UnaryOp::Plus => match value {
            PrimitiveV::Number(_) => EvaluationV::Value(value),
            _ => EvaluationV::Unknown,
        },
        UnaryOp::Minus => match value {
            PrimitiveV::Number(number) => EvaluationV::Value(PrimitiveV::Number(number.negated())),
            _ => EvaluationV::Unknown,
        },
        UnaryOp::Not => EvaluationV::Value(PrimitiveV::Boolean(!value.truthy())),
        _ => EvaluationV::Unknown,
    }
}

/// An operator on two values.
pub open spec fn binary_value(
    table: Seq<Answer>,
    op: BinaryOp,
    left: PrimitiveV,
    right: PrimitiveV,
) -> EvaluationV {
    match op {
        BinaryOp::Addition => if left is Number && right is Number {
            compute_v(table, Arithmetic::Sum, left, right)
        } else if left is String || right is String {
            EvaluationV::Value(PrimitiveV::String(left.js_text() + right.js_text()))
        } else {
            EvaluationV::Unknown
        },
        BinaryOp::Subtraction => compute_v(table, Arithmetic::Difference, left, right),
        BinaryOp::Multiplication => compute_v(table, Arithmetic::Product, left, right),
        BinaryOp::Division => compute_v(table, Arithmetic::Quotient, left, right),
        BinaryOp::Remainder => compute_v(table, Arithmetic::Remainder, left, right),
        BinaryOp::Exponential => compute_v(table, Arithmetic::Power, left, right),
        BinaryOp::Equality => known_bool(left.loosely_equals(right)),
        BinaryOp::Inequality => known_bool(
            match left.loosely_equals(right) {
                Some(equal) => Some(!equal),
                None => None,
            },
        ),
        BinaryOp::StrictEquality => known_bool(Some(left.strictly_equals(right))),
        BinaryOp::StrictInequality => known_bool(Some(!left.strictly_equals(right))),
        BinaryOp::LessThan
        | BinaryOp::LessEqualThan
        | BinaryOp::GreaterThan
        | BinaryOp::GreaterEqualThan => known_bool(left.compares(op, right)),
        _ => EvaluationV::Unknown,
    }
}

/// The value of a name: that of a constant, or `undefined` where nothing is
/// bound to the name.
pub open spec fn name_value(ctx: ContextV, name: Seq<char>, symbol: Option<Symbol>) -> EvaluationV {
    let constant = match symbol {
        Some(symbol) => ctx.constant(symbol.id),
        None => None,
    };
    match constant {
        Some(value) => EvaluationV::Value(PrimitiveV::of_text(value)),
        None => if name == "undefined"@ && symbol is None {
            EvaluationV::Value(PrimitiveV::Undefined)
        } else {
            EvaluationV::Unknown
        },
    }
}

/// The text of a piece of a template literal.
pub open spec fn quasi_text(quasi: Quasi) -> Seq<char> {
    match quasi.cooked {
        Some(cooked) => cooked@,
        None => quasi.raw@,
    }
}

/// The value of an expression.
pub open spec fn evaluate_v(expr: Expr, ctx: ContextV, table: Seq<Answer>) -> EvaluationV
    decreases expr, 0nat,
{
    match expr.kind {
        Kind::Paren(inner) => evaluate_v(*inner, ctx, table),
        Kind::Typed { expr: inner, .. } => evaluate_v(*inner, ctx, table),
        Kind::Str(text) => EvaluationV::Value(PrimitiveV::String(text@)),
        Kind::Num(number) => EvaluationV::Value(PrimitiveV::Number(number@)),
        Kind::Bool(value) => EvaluationV::Value(PrimitiveV::Boolean(value)),
        Kind::Null => EvaluationV::Value(PrimitiveV::Null),
        Kind::Template { quasis, exprs } => pieces_v(quasis@, exprs@, quasis@.len(), ctx, table),
        Kind::Ident { name, symbol } => name_value(ctx, name@, symbol),
        Kind::Unary { op, argument } => match evaluate_v(*argument, ctx, table) {
            EvaluationV::Value(value) => unary_value(op, value),
            other => other,
        },
        Kind::Binary { op, left, right } => match evaluate_v(*left, ctx, table) {
            EvaluationV::Value(a) => match evaluate_v(*right, ctx, table) {
                EvaluationV::Value(b) => binary_value(table, op, a, b),
                other => other,
            },
            other => other,
        },
        Kind::Logical { op, left, right } => match evaluate_v(*left, ctx, table) {
            EvaluationV::Value(a) => {
                let take_right = match op {
                    LogicalOp::And => a.truthy(),
                    LogicalOp::Or => !a.truthy(),
                    LogicalOp::Coalesce => a.nullish(),
                };
                if take_right {
                    evaluate_v(*right, ctx, table)
                } else {
                    EvaluationV::Value(a)
                }
            },
            other => other,
        },
        Kind::Conditional { test, consequent, alternate } => match evaluate_v(*test, ctx, table) {
            EvaluationV::Value(a) => if a.truthy() {
                evaluate_v(*consequent, ctx, table)
            } else {
                evaluate_v(*alternate, ctx, table)
            },
            other => other,
        },
        _ => EvaluationV::Unknown,
    }
}

/// The text of the first `n` pieces of a template literal, with the values
/// behind each.
pub open spec fn pieces_v(
    quasis: Seq<Quasi>,
    exprs: Seq<Rc<Expr>>,
    n: nat,
    ctx: ContextV,
    table: Seq<Answer>,
) -> EvaluationV
    decreases exprs, n,
{
    if n == 0 {
        EvaluationV::Value(PrimitiveV::String(seq![]))
    } else {
        match pieces_v(quasis, exprs, (n - 1) as nat, ctx, table) {
            EvaluationV::Value(head) => {
                let text = head.js_text() + quasi_text(quasis[n - 1]);
                if n - 1 < exprs.len() {
                    match evaluate_v(*exprs[n - 1], ctx, table) {
                        EvaluationV::Value(value) => EvaluationV::Value(
                            PrimitiveV::String(text + value.js_text()),
                        ),
                        other => other,
                    }
                } else {
                    EvaluationV::Value(PrimitiveV::String(text))
                }
            },
            other => other,
        }
    }
}

fn find_answer(table: &Vec<Answer>, op: Arithmetic, left: u64, right: u64) -> (result: Option<
    Number,
>)
    ensures
        (match result {
            Some(result) => Some(result@),
            None => None,
        }) == answer_v(table@, op, left, right),
{
    let mut i: usize = 0;
    proof {
        assert(table@.skip(0) =~= table@);
    }
    while i < table.len()
        invariant
            i <= table.len(),
            answer_v(table@.skip(i as int), op, left, right) == answer_v(table@, op, left, right),
        decreases table.len() - i,
    {
        proof {
            assert(table@.skip(i as int)[0] == table@[i as int]);
            assert(table@.skip(i as int).skip(1) =~= table@.skip(i + 1));
        }
        if table[i].op == op && table[i].left == left && table[i].right == right {
            return Some(table[i].result.duplicate());
        }
        i = i + 1;
    }
    None
}

fn compute(
    table: &Vec<Answer>,
    op: Arithmetic,
    left: &StaticPrimitiveValue,
    right: &StaticPrimitiveValue,
) -> (result: Evaluation)
    ensures
        result@ == compute_v(table@, op, left@, right@),
{
    match (left, right) {
        (StaticPrimitiveValue::Number(left), StaticPrimitiveValue::Number(right)) => {
            match find_answer(table, op, left.bits, right.bits) {
                Some(result) => Evaluation::Value(StaticPrimitiveValue::Number(result)),
                None => Evaluation::Needs { op, left: left.bits, right: right.bits },
            }
        },
        _ => Evaluation::Unknown,
    }
}

fn from_bool(value: Option<bool>) -> (result: Evaluation)
    ensures
        result@ == known_bool(value),
{
    match value {
        Some(value) => Evaluation::Value(StaticPrimitiveValue::Boolean(value)),
        None => Evaluation::Unknown,
    }
}

fn apply_unary(op: UnaryOp, value: StaticPrimitiveValue) -> (result: Evaluation)
    ensures
        result@ == unary_value(op, value@),
{
    match op {
        UnaryOp::Plus => match value {
            StaticPrimitiveValue::Number(number) => Evaluation::Value(
                StaticPrimitiveValue::Number(number),
            ),
            _ => Evaluation::Unknown,
        },
        UnaryOp::Minus => match value {
            StaticPrimitiveValue::Number(number) => Evaluation::Value(
                StaticPrimitiveValue::Number(negate(&number)),
            ),
            _ => Evaluation::Unknown,
        },
        UnaryOp::Not => Evaluation::Value(StaticPrimitiveValue::Boolean(!value.is_truthy())),
        _ => Evaluation::Unknown,
    }
}

fn is_number(value: &StaticPrimitiveValue) -> (yes: bool)
    ensures
        yes == (value@ is Number),
{
    match value {
        StaticPrimitiveValue::Number(_) => true,
        _ => false,
    }
}

fn is_string(value: &StaticPrimitiveValue) -> (yes: bool)
    ensures
        yes == (value@ is String),
{
    match value {
        StaticPrimitiveValue::String(_) => true,
        _ => false,
    }
}

fn apply_binary(
    table: &Vec<Answer>,
    op: BinaryOp,
    left: &StaticPrimitiveValue,
    right: &StaticPrimitiveValue,
) -> (result: Evaluation)
    ensures
        result@ == binary_value(table@, op, left@, right@),
{
    match op {
        BinaryOp::Addition => if is_number(left) && is_number(right) {
            compute(table, Arithmetic::Sum, left, right)
        } else if is_string(left) || is_string(right) {
            Evaluation::Value(
                StaticPrimitiveValue::String(
                    joined(left.as_js_text().as_str(), right.as_js_text().as_str()),
                ),
            )
        } else {
            Evaluation::Unknown
        },
        BinaryOp::Subtraction => compute(table, Arithmetic::Difference, left, right),
        BinaryOp::Multiplication => compute(table, Arithmetic::Product, left, right),
        BinaryOp::Division => compute(table, Arithmetic::Quotient, left, right),
        BinaryOp::Remainder => compute(table, Arithmetic::Remainder, left, right),
        BinaryOp::Exponential => compute(table, Arithmetic::Power, left, right),
        BinaryOp::Equality => from_bool(loose_equals(left, right)),
        BinaryOp::Inequality => match loose_equals(left, right) {
            Some(equal) => from_bool(Some(!equal)),
            None => Evaluation::Unknown,
        },
        BinaryOp::StrictEquality => from_bool(Some(left.strict_equals(right))),
        BinaryOp::StrictInequality => from_bool(Some(!left.strict_equals(right))),
        BinaryOp::LessThan
        | BinaryOp::LessEqualThan
        | BinaryOp::GreaterThan
        | BinaryOp::GreaterEqualThan => from_bool(compare_primitive_values(op, left, right)),
        _ => Evaluation::Unknown,
    }
}

fn static_identifier_primitive_value(
    context: &BlockContext,
    name: &str,
    symbol: &Option<Symbol>,
) -> (result: Evaluation)
    ensures
        result@ == name_value(context@, name@, *symbol),
{
    match symbol {
        Some(symbol) => match context.get_constant_text_value(symbol.id) {
            Some(value) => Evaluation::Value(StaticPrimitiveValue::from_static_text_value(value)),
            None => Evaluation::Unknown,
        },
        None => if same(name, "undefined") {
            Evaluation::Value(StaticPrimitiveValue::Undefined)
        } else {
            Evaluation::Unknown
        },
    }
}

/// The value of an expression, as far as the answers in the table reach.
pub fn evaluate_static_primitive_expression(
    expr: &Expr,
    context: &BlockContext,
    table: &Vec<Answer>,
) -> (result: Evaluation)
    ensures
        result@ == evaluate_v(*expr, context@, table@),
    decreases expr, 0nat,
{
    match &expr.kind {
        Kind::Paren(inner) => evaluate_static_primitive_expression(inner, context, table),
        Kind::Typed { expr: inner, .. } => evaluate_static_primitive_expression(
            inner,
            context,
            table,
        ),
        Kind::Str(text) => Evaluation::Value(StaticPrimitiveValue::String(text.clone())),
        Kind::Num(number) => Evaluation::Value(StaticPrimitiveValue::Number(number.duplicate())),
        Kind::Bool(value) => Evaluation::Value(StaticPrimitiveValue::Boolean(*value)),
        Kind::Null => Evaluation::Value(StaticPrimitiveValue::Null),
        Kind::Template { quasis, exprs } => evaluate_pieces(quasis, exprs, context, table),
        Kind::Ident { name, symbol } => static_identifier_primitive_value(
            context,
            name.as_str(),
            symbol,
        ),
        Kind::Unary { op, argument } => match evaluate_static_primitive_expression(
            argument,
            context,
            table,
        ) {
            Evaluation::Value(value) => apply_unary(*op, value),
            other => other,
        },
        Kind::Binary { op, left, right } => match evaluate_static_primitive_expression(
            left,
            context,
            table,
        ) {
            Evaluation::Value(a) => match evaluate_static_primitive_expression(
                right,
                context,
                table,
            ) {
                Evaluation::Value(b) => apply_binary(table, *op, &a, &b),
                other => other,
            },
            other => other,
        },
        Kind::Logical { op, left, right } => match evaluate_static_primitive_expression(
            left,
            context,
            table,
        ) {
            Evaluation::Value(a) => {
                let take_right = match *op {
                    LogicalOp::And => a.is_truthy(),
                    LogicalOp::Or => !a.is_truthy(),
                    LogicalOp::Coalesce => a.is_nullish(),
                };
                if take_right {
                    evaluate_static_primitive_expression(right, context, table)
                } else {
                    Evaluation::Value(a)
                }
            },
            other => other,
        },
        Kind::Conditional { test, consequent, alternate } => {
            match evaluate_static_primitive_expression(test, context, table) {
                Evaluation::Value(a) => if a.is_truthy() {
                    evaluate_static_primitive_expression(consequent, context, table)
                } else {
                    evaluate_static_primitive_expression(alternate, context, table)
                },
                other => other,
            }
        },
        _ => Evaluation::Unknown,
    }
}

fn text_of_quasi(quasi: &Quasi) -> (text: &str)
    ensures
        text@ == quasi_text(*quasi),
{
    match &quasi.cooked {
        Some(cooked) => cooked.as_str(),
        None => quasi.raw.as_str(),
    }
}

fn evaluate_pieces(
    quasis: &Vec<Quasi>,
    exprs: &Vec<Rc<Expr>>,
    context: &BlockContext,
    table: &Vec<Answer>,
) -> (result: Evaluation)
    ensures
        result@ == pieces_v(quasis@, exprs@, quasis@.len(), context@, table@),
    decreases exprs, 1nat,
{
    let mut text = String::new();
    proof {
        assert(text@ =~= seq![]);
    }
    let mut i: usize = 0;
    while i < quasis.len()
        invariant
            i <= quasis.len(),
            pieces_v(quasis@, exprs@, i as nat, context@, table@) == EvaluationV::Value(
                PrimitiveV::String(text@),
            ),
        decreases quasis.len() - i,
    {
        text.append(text_of_quasi(&quasis[i]));
        if i < exprs.len() {
            match evaluate_static_primitive_expression(&exprs[i], context, table) {
                Evaluation::Value(value) => {
                    text.append(value.as_js_text().as_str());
                },
                other => {
                    proof {
                        pieces_stop(quasis@, exprs@, (i + 1) as nat, quasis@.len(), context@, table@);
                    }
                    return other;
                },
            }
        }
        i = i + 1;
    }
    Evaluation::Value(StaticPrimitiveValue::String(text))
}

/// An evaluation that stops at one piece stops there for all that follow.
proof fn pieces_stop(
    quasis: Seq<Quasi>,
    exprs: Seq<Rc<Expr>>,
    n: nat,
    m: nat,
    ctx: ContextV,
    table: Seq<Answer>,
)
    requires
        n <= m,
        !(pieces_v(quasis, exprs, n, ctx, table) is Value),
    ensures
        pieces_v(quasis, exprs, m, ctx, table) == pieces_v(quasis, exprs, n, ctx, table),
    decreases m,
{
    if n < m {
        pieces_stop(quasis, exprs, n, (m - 1) as nat, ctx, table);
    }
}

/// The text of an evaluation: `Some` where it gave a string or a number.
pub open spec fn text_of(result: EvaluationV) -> Option<StaticTextV> {
    match result {
        EvaluationV::Value(value) => value.to_text(),
        _ => None,
    }
}

/// The text that an expression folds to, or the operation that is needed to
/// tell.
pub fn evaluate_static_text_expression(
    expr: &Expr,
    context: &BlockContext,
    table: &Vec<Answer>,
) -> (result: Result<Option<StaticTextValue>, (Arithmetic, u64, u64)>)
    ensures
        match result {
            Ok(text) => !(evaluate_v(*expr, context@, table@) is Needs) && text_of(
                evaluate_v(*expr, context@, table@),
            ) == (match text {
                Some(text) => Some(text@),
                None => None,
            }),
            Err((op, left, right)) => evaluate_v(*expr, context@, table@) == (EvaluationV::Needs {
                op,
                left,
                right,
            }),
        },
{
    match evaluate_static_primitive_expression(expr, context, table) {
        Evaluation::Value(value) => Ok(value.into_static_text_value()),
        Evaluation::Unknown => Ok(None),
        Evaluation::Needs { op, left, right } => Err((op, left, right)),
    }
}

/// What is noted of the text of an expression is what it folds to.
pub open spec fn text_is_known(expr: Expr, ctx: ContextV, table: Seq<Answer>) -> bool {
    &&& !(evaluate_v(expr, ctx, table) is Needs)
    &&& text_of(evaluate_v(expr, ctx, table)) == (match expr.facts.static_text {
        Some(text) => Some(text@),
        None => None,
    })
}

/// Notes of an expression the text that it folds to, or gives it back with the
/// operation that is needed to tell.
pub fn with_static_text(expr: Expr, context: &BlockContext, table: &Vec<Answer>) -> (done: Result<
    Expr,
    (Expr, Arithmetic, u64, u64),
>)
    ensures
        match done {
            Ok(done) => {
                &&& text_is_known(done, context@, table@)
                &&& done.span == expr.span
                &&& done.kind == expr.kind
                &&& done.facts.dynamic == expr.facts.dynamic
                &&& done.facts.condition == expr.facts.condition
            },
            Err((same, op, left, right)) => same == expr && evaluate_v(expr, context@, table@) == (
            EvaluationV::Needs { op, left, right }),
        },
{
    match evaluate_static_text_expression(&expr, context, table) {
        Ok(text) => {
            let Expr { span, facts, kind } = expr;
            let Facts { dynamic, condition, .. } = facts;
            Ok(Expr { span, facts: Facts { dynamic, static_text: text, condition }, kind })
        },
        Err((op, left, right)) => Err((expr, op, left, right)),
    }
}

/// An evaluation never asks for what the table answers.
pub proof fn needs_are_new(expr: &Expr, ctx: ContextV, table: Seq<Answer>)
    ensures
        match evaluate_v(*expr, ctx, table) {
            EvaluationV::Needs { op, left, right } => answer_v(table, op, left, right) is None,
            _ => true,
        },
    decreases expr, 0nat,
{
    match &expr.kind {
        Kind::Paren(inner) => needs_are_new(&**inner, ctx, table),
        Kind::Typed { expr: inner, .. } => needs_are_new(&**inner, ctx, table),
        Kind::Template { quasis, exprs } => pieces_needs_are_new(
            quasis@,
            exprs@,
            quasis@.len(),
            ctx,
            table,
        ),
        Kind::Unary { op, argument } => needs_are_new(&**argument, ctx, table),
        Kind::Binary { op, left, right } => {
            needs_are_new(&**left, ctx, table);
            needs_are_new(&**right, ctx, table);
        },
        Kind::Logical { op, left, right } => {
            needs_are_new(&**left, ctx, table);
            needs_are_new(&**right, ctx, table);
        },
        Kind::Conditional { test, consequent, alternate } => {
            needs_are_new(&**test, ctx, table);
            needs_are_new(&**consequent, ctx, table);
            needs_are_new(&**alternate, ctx, table);
        },
        _ => {},
    }
}

proof fn pieces_needs_are_new(
    quasis: Seq<Quasi>,
    exprs: Seq<Rc<Expr>>,
    n: nat,
    ctx: ContextV,
    table: Seq<Answer>,
)
    ensures
        match pieces_v(quasis, exprs, n, ctx, table) {
            EvaluationV::Needs { op, left, right } => answer_v(table, op, left, right) is None,
            _ => true,
        },
    decreases exprs, n,
{
    if n > 0 {
        pieces_needs_are_new(quasis, exprs, (n - 1) as nat, ctx, table);
        if n - 1 < exprs.len() {
            needs_are_new(&*exprs[n - 1], ctx, table);
        }
    }
}

// ---------------------------------------------------------------------------
// Confidence
// ---------------------------------------------------------------------------

/// An expression is made of literals alone.
pub open spec fn confident(expr: Expr) -> bool
    decreases expr,
{
    match expr.kind {
        Kind::Paren(inner) => confident(*inner),
        Kind::Typed { expr: inner, .. } => confident(*inner),
        Kind::Str(_) | Kind::Num(_) | Kind::Bool(_) | Kind::Null => true,
        Kind::Template { exprs, .. } => forall|i: int|
            0 <= i < exprs@.len() ==> confident(*#[trigger] exprs@[i]),
        Kind::Array(items) => forall|i: int|
            0 <= i < items@.len() ==> match #[trigger] items@[i] {
                Element::Spread(_) => false,
                Element::Hole => true,
                Element::Expr(item) => confident(*item),
            },
        Kind::Object(props) => forall|i: int|
            0 <= i < props@.len() ==> match #[trigger] props@[i] {
                Prop::Spread { .. } => false,
                Prop::Named { value, computed, .. } => !computed && confident(*value),
            },
        Kind::Unary { argument, .. } => confident(*argument),
        Kind::Binary { left, right, .. } => confident(*left) && confident(*right),
        Kind::Logical { left, right, .. } => confident(*left) && confident(*right),
        Kind::Conditional { test, consequent, alternate } => confident(*test) && confident(
            *consequent,
        ) && confident(*alternate),
        _ => false,
    }
}

/// The properties of an object are named and made of literals.
pub open spec fn confident_props(props: Seq<Prop>) -> bool {
    forall|i: int|
        0 <= i < props.len() ==> match #[trigger] props[i] {
            Prop::Spread { .. } => false,
            Prop::Named { value, computed, .. } => !computed && confident(*value),
        }
}

/// Whether an expression is made of literals alone.
#[verifier::loop_isolation(false)]
pub fn is_confident_static_expression(expr: &Expr) -> (yes: bool)
    ensures
        yes == confident(*expr),
    decreases expr,
{
    match &expr.kind {
        Kind::Paren(inner) => is_confident_static_expression(inner),
        Kind::Typed { expr: inner, .. } => is_confident_static_expression(inner),
        Kind::Str(_) | Kind::Num(_) | Kind::Bool(_) | Kind::Null => true,
        Kind::Template { exprs, .. } => {
            let mut i: usize = 0;
            while i < exprs.len()
                invariant
                    i <= exprs.len(),
                    forall|k: int| 0 <= k < i ==> confident(*#[trigger] exprs@[k]),
                decreases exprs.len() - i,
            {
                if !is_confident_static_expression(&exprs[i]) {
                    return false;
                }
                i = i + 1;
            }
            true
        },
        Kind::Array(items) => {
            let mut i: usize = 0;
            while i < items.len()
                invariant
                    i <= items.len(),
                    forall|k: int|
                        0 <= k < i ==> match #[trigger] items@[k] {
                            Element::Spread(_) => false,
                            Element::Hole => true,
                            Element::Expr(item) => confident(*item),
                        },
                decreases items.len() - i,
            {
                proof {
                    assert(decreases_to!(items@ => items@[i as int]));
                }
                let good = match &items[i] {
                    Element::Spread(_) => false,
                    Element::Hole => true,
                    Element::Expr(item) => is_confident_static_expression(item),
                };
                if !good {
                    return false;
                }
                i = i + 1;
            }
            true
        },
        Kind::Object(props) => {
            let mut i: usize = 0;
            while i < props.len()
                invariant
                    i <= props.len(),
                    forall|k: int|
                        0 <= k < i ==> match #[trigger] props@[k] {
                            Prop::Spread { .. } => false,
                            Prop::Named { value, computed, .. } => !computed && confident(*value),
                        },
                decreases props.len() - i,
            {
                proof {
                    assert(decreases_to!(props@ => props@[i as int]));
                }
                let good = match &props[i] {
                    Prop::Spread { .. } => false,
                    Prop::Named { value, computed, .. } => !*computed
                        && is_confident_static_expression(value),
                };
                if !good {
                    return false;
                }
                i = i + 1;
            }
            true
        },
        Kind::Unary { argument, .. } => is_confident_static_expression(argument),
        Kind::Binary { left, right, .. } => is_confident_static_expression(left)
            && is_confident_static_expression(right),
        Kind::Logical { left, right, .. } => is_confident_static_expression(left)
            && is_confident_static_expression(right),
        Kind::Conditional { test, consequent, alternate } => is_confident_static_expression(test)
            && is_confident_static_expression(consequent) && is_confident_static_expression(
            alternate,
        ),
        _ => false,
    }
}

} // verus!
