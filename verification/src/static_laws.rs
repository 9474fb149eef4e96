//! What known expressions evaluate to.

use crate::ast::{BinaryOp, Expr, Kind, LogicalOp, NumberV, Quasi, UnaryOp};
use crate::ir::{ContextV, StaticTextV};
use crate::statics::{
    answer_v, binary_value, confident, evaluate_v, float_equal, float_less, is_nan, pieces_v,
    quasi_text, rank, unary_value, units_less, Answer, Arithmetic, EvaluationV, PrimitiveV,
};
use std::rc::Rc;
use vstd::prelude::*;

verus! {

// ---------------------------------------------------------------------------
// Numbers
// ---------------------------------------------------------------------------

/// An answer of a table is the first entry for the operation and the operands in
/// their order.
pub proof fn an_answer_is_the_first(table: Seq<Answer>, op: Arithmetic, left: u64, right: u64)
    ensures
        match answer_v(table, op, left, right) {
            Some(result) => exists|i: int|
                0 <= i < table.len() && (#[trigger] table[i]).op == op && table[i].left == left
                    && table[i].right == right && table[i].result@ == result,
            None => forall|i: int|
                0 <= i < table.len() ==> !((#[trigger] table[i]).op == op && table[i].left == left
                    && table[i].right == right),
        },
    decreases table.len(),
{
    if table.len() > 0 && !(table[0].op == op && table[0].left == left && table[0].right
        == right) {
        let rest = table.skip(1);
        an_answer_is_the_first(rest, op, left, right);
        match answer_v(rest, op, left, right) {
            Some(result) => {
                let i = choose|i: int|
                    0 <= i < rest.len() && (#[trigger] rest[i]).op == op && rest[i].left == left
                        && rest[i].right == right && rest[i].result@ == result;
                assert(table[i + 1] == rest[i]);
            },
            None => {
                assert forall|i: int| 0 <= i < table.len() implies !((#[trigger] table[i]).op == op
                    && table[i].left == left && table[i].right == right) by {
                    if i > 0 {
                        assert(rest[i - 1] == table[i]);
                    }
                }
            },
        }
    }
}

/// A calculation with two numbers asks for the operation of its operator, with
/// the left operand on the left, and takes the answer where there is one.
pub proof fn a_calculation_asks_for_its_operation(
    table: Seq<Answer>,
    left: NumberV,
    right: NumberV,
)
    ensures
        asks(table, BinaryOp::Addition, Arithmetic::Sum, left, right),
        asks(table, BinaryOp::Subtraction, Arithmetic::Difference, left, right),
        asks(table, BinaryOp::Multiplication, Arithmetic::Product, left, right),
        asks(table, BinaryOp::Division, Arithmetic::Quotient, left, right),
        asks(table, BinaryOp::Remainder, Arithmetic::Remainder, left, right),
        asks(table, BinaryOp::Exponential, Arithmetic::Power, left, right),
{
}

/// An operator stands for an operation on two numbers.
pub open spec fn asks(
    table: Seq<Answer>,
    op: BinaryOp,
    wanted: Arithmetic,
    left: NumberV,
    right: NumberV,
) -> bool {
    let value = binary_value(table, op, PrimitiveV::Number(left), PrimitiveV::Number(right));
    match answer_v(table, wanted, left.bits, right.bits) {
        Some(result) => value == EvaluationV::Value(PrimitiveV::Number(result)),
        None => value matches EvaluationV::Needs { op: o, left: l, right: r } && o == wanted && l
            == left.bits && r == right.bits,
    }
}

/// Numbers that are not negative are ordered as their bits, negative ones the
/// other way round, and a negative one is less than a positive one.
pub proof fn numbers_are_ordered_by_their_bits(a: u64, b: u64)
    ensures
        a < b <= 0x7ff0_0000_0000_0000 ==> float_less(a, b) && !float_less(b, a),
        0x8000_0000_0000_0000 <= a < b <= 0xfff0_0000_0000_0000 ==> float_less(b, a)
            && !float_less(a, b),
        0x8000_0000_0000_0000 < a <= 0xfff0_0000_0000_0000 && b <= 0x7ff0_0000_0000_0000
            ==> float_less(a, b),
        0x7ff0_0000_0000_0000 < a < 0x8000_0000_0000_0000 ==> is_nan(a) && !float_less(a, b)
            && !float_less(b, a) && !float_equal(a, b),
        a > 0xfff0_0000_0000_0000 ==> is_nan(a),
        float_equal(0, 0x8000_0000_0000_0000),
{
}

// ---------------------------------------------------------------------------
// Texts
// ---------------------------------------------------------------------------

/// Texts are ordered by their first different unit, and one that goes on is
/// greater.
pub proof fn texts_are_ordered_by_the_first_difference(
    same: Seq<u16>,
    a: u16,
    b: u16,
    left: Seq<u16>,
    right: Seq<u16>,
)
    ensures
        a != b ==> (units_less(same + (seq![a] + left), same + (seq![b] + right)) <==> a < b),
        units_less(same, same + (seq![a] + left)),
        !units_less(same + (seq![a] + left), same),
    decreases same.len(),
{
    let one = same + (seq![a] + left);
    let two = same + (seq![b] + right);
    if same.len() == 0 {
        assert(one =~= seq![a] + left);
        assert(two =~= seq![b] + right);
    } else {
        texts_are_ordered_by_the_first_difference(same.skip(1), a, b, left, right);
        assert(one.skip(1) =~= same.skip(1) + (seq![a] + left));
        assert(two.skip(1) =~= same.skip(1) + (seq![b] + right));
    }
}

/// A sum with a text is the text of the left operand and then that of the right
/// one.
pub proof fn a_sum_with_a_text_is_both_texts(
    table: Seq<Answer>,
    left: PrimitiveV,
    right: PrimitiveV,
)
    requires
        left is String || right is String,
    ensures
        binary_value(table, BinaryOp::Addition, left, right) == EvaluationV::Value(
            PrimitiveV::String(left.js_text() + right.js_text()),
        ),
{
}

/// A value has the text that the language shows.
pub proof fn a_value_has_its_text(text: Seq<char>, number: NumberV)
    ensures
        PrimitiveV::String(text).js_text() == text,
        PrimitiveV::Number(number).js_text() == number.shown(),
        PrimitiveV::Boolean(true).js_text() == "true"@,
        PrimitiveV::Boolean(false).js_text() == "false"@,
        PrimitiveV::Null.js_text() == "null"@,
        PrimitiveV::Undefined.js_text() == "undefined"@,
{
}

/// A text or a number that was noted is the value it was noted from; a boolean is
/// not noted.
pub proof fn a_noted_value_reads_back(text: Seq<char>, number: NumberV, value: bool)
    ensures
        PrimitiveV::String(text).to_text() == Some(StaticTextV::String(text)),
        PrimitiveV::Number(number).to_text() == Some(StaticTextV::Number(number)),
        PrimitiveV::Boolean(value).to_text() is None,
        PrimitiveV::Null.to_text() is None,
        PrimitiveV::Undefined.to_text() is None,
        PrimitiveV::of_text(StaticTextV::String(text)) == PrimitiveV::String(text),
        PrimitiveV::of_text(StaticTextV::Number(number)) == PrimitiveV::Number(number),
        PrimitiveV::of_text(StaticTextV::Boolean(value)) == PrimitiveV::Boolean(value),
{
}

// ---------------------------------------------------------------------------
// Conditions
// ---------------------------------------------------------------------------

/// What holds as a condition: every text but the empty one, every number but zero
/// and what is none, and `true`.
pub proof fn what_holds(text: Seq<char>, number: NumberV)
    ensures
        PrimitiveV::String(text).truthy() <==> text.len() > 0,
        PrimitiveV::Number(number).truthy() <==> !is_nan(number.bits) && rank(number.bits) != 0,
        PrimitiveV::Boolean(true).truthy(),
        !PrimitiveV::Boolean(false).truthy(),
        !PrimitiveV::Null.truthy(),
        !PrimitiveV::Undefined.truthy(),
        PrimitiveV::Null.nullish() && PrimitiveV::Undefined.nullish(),
        !PrimitiveV::Boolean(false).nullish() && !PrimitiveV::String(text).nullish()
            && !PrimitiveV::Number(number).nullish(),
{
}

/// Equality goes both ways, and inequality is its opposite.
pub proof fn equality_goes_both_ways(table: Seq<Answer>, left: PrimitiveV, right: PrimitiveV)
    ensures
        left.strictly_equals(right) == right.strictly_equals(left),
        left.loosely_equals(right) == right.loosely_equals(left),
        binary_value(table, BinaryOp::StrictEquality, left, right) == EvaluationV::Value(
            PrimitiveV::Boolean(left.strictly_equals(right)),
        ),
        binary_value(table, BinaryOp::StrictInequality, left, right) == EvaluationV::Value(
            PrimitiveV::Boolean(!left.strictly_equals(right)),
        ),
        left.loosely_equals(right) matches Some(equal) ==> binary_value(
            table,
            BinaryOp::Equality,
            left,
            right,
        ) == EvaluationV::Value(PrimitiveV::Boolean(equal)) && binary_value(
            table,
            BinaryOp::Inequality,
            left,
            right,
        ) == EvaluationV::Value(PrimitiveV::Boolean(!equal)),
        left.loosely_equals(right) is None ==> binary_value(table, BinaryOp::Equality, left, right)
            is Unknown && binary_value(table, BinaryOp::Inequality, left, right) is Unknown,
        left.strictly_equals(right) ==> left.loosely_equals(right) == Some(true),
        PrimitiveV::Null.loosely_equals(PrimitiveV::Undefined) == Some(true),
        !PrimitiveV::Null.strictly_equals(PrimitiveV::Undefined),
{
}

/// A value equals itself, except a number that is none.
pub proof fn a_value_equals_itself(value: PrimitiveV)
    ensures
        !(value is Number) ==> value.strictly_equals(value),
        value matches PrimitiveV::Number(number) ==> (value.strictly_equals(value) <==> !is_nan(
            number.bits,
        )),
{
}

/// Texts are equal where they are the same, and values of different kinds never
/// are.
pub proof fn only_the_same_texts_are_equal(a: Seq<char>, b: Seq<char>, number: NumberV)
    ensures
        PrimitiveV::String(a).strictly_equals(PrimitiveV::String(b)) <==> a == b,
        !PrimitiveV::String(a).strictly_equals(PrimitiveV::Number(number)),
        !PrimitiveV::Boolean(true).strictly_equals(PrimitiveV::Boolean(false)),
{
}

/// To be less is to be greater the other way round, and to be no greater is to be
/// less or equal.
pub proof fn comparisons_go_both_ways(left: PrimitiveV, right: PrimitiveV)
    ensures
        left.compares(BinaryOp::LessThan, right) == right.compares(BinaryOp::GreaterThan, left),
        left.compares(BinaryOp::LessEqualThan, right) == right.compares(
            BinaryOp::GreaterEqualThan,
            left,
        ),
        left matches PrimitiveV::Number(a) ==> (right matches PrimitiveV::Number(b) ==> {
            &&& left.compares(BinaryOp::LessThan, right) == Some(float_less(a.bits, b.bits))
            &&& left.compares(BinaryOp::LessEqualThan, right) == Some(
                float_less(a.bits, b.bits) || float_equal(a.bits, b.bits),
            )
        }),
        left matches PrimitiveV::String(a) ==> (right matches PrimitiveV::String(b) ==> {
            &&& left.compares(BinaryOp::LessThan, right) == Some(
                units_less(crate::statics::utf16(a), crate::statics::utf16(b)),
            )
            &&& left.compares(BinaryOp::LessEqualThan, right) == Some(
                !units_less(crate::statics::utf16(b), crate::statics::utf16(a)),
            )
        }),
{
}

/// To negate a condition gives its opposite, a plus sign keeps a number, and a
/// minus sign negates it.
pub proof fn a_sign_changes_a_value(value: PrimitiveV)
    ensures
        unary_value(UnaryOp::Not, value) == EvaluationV::Value(
            PrimitiveV::Boolean(!value.truthy()),
        ),
        value is Number ==> unary_value(UnaryOp::Plus, value) == EvaluationV::Value(value),
        value matches PrimitiveV::Number(number) ==> unary_value(UnaryOp::Minus, value)
            == EvaluationV::Value(PrimitiveV::Number(number.negated())),
        !(value is Number) ==> unary_value(UnaryOp::Plus, value) is Unknown && unary_value(
            UnaryOp::Minus,
            value,
        ) is Unknown,
{
}

// ---------------------------------------------------------------------------
// Expressions
// ---------------------------------------------------------------------------

/// `a || b` is `a ? a : b`, and `a && b` is `a ? b : a`.
pub proof fn a_logical_expression_is_a_conditional_one(
    logical: Expr,
    conditional: Expr,
    left: Rc<Expr>,
    right: Rc<Expr>,
    ctx: ContextV,
    table: Seq<Answer>,
)
    ensures
        logical.kind == (Kind::Logical { op: LogicalOp::Or, left, right }) && conditional.kind == (
        Kind::Conditional { test: left, consequent: left, alternate: right }) ==> evaluate_v(
            logical,
            ctx,
            table,
        ) == evaluate_v(conditional, ctx, table),
        logical.kind == (Kind::Logical { op: LogicalOp::And, left, right }) && conditional.kind == (
        Kind::Conditional { test: left, consequent: right, alternate: left }) ==> evaluate_v(
            logical,
            ctx,
            table,
        ) == evaluate_v(conditional, ctx, table),
        logical.kind == (Kind::Logical { op: LogicalOp::Coalesce, left, right }) ==> (evaluate_v(
            *left,
            ctx,
            table,
        ) matches EvaluationV::Value(value) ==> evaluate_v(logical, ctx, table) == if value is Null
            || value is Undefined {
            evaluate_v(*right, ctx, table)
        } else {
            EvaluationV::Value(value)
        }),
{
    reveal_with_fuel(evaluate_v, 2);
}

/// A conditional expression is the branch that its test chooses.
pub proof fn a_conditional_expression_is_its_branch(
    expr: Expr,
    test: Rc<Expr>,
    consequent: Rc<Expr>,
    alternate: Rc<Expr>,
    ctx: ContextV,
    table: Seq<Answer>,
)
    requires
        expr.kind == (Kind::Conditional { test, consequent, alternate }),
    ensures
        evaluate_v(*test, ctx, table) == EvaluationV::Value(PrimitiveV::Boolean(true))
            ==> evaluate_v(expr, ctx, table) == evaluate_v(*consequent, ctx, table),
        evaluate_v(*test, ctx, table) == EvaluationV::Value(PrimitiveV::Boolean(false))
            ==> evaluate_v(expr, ctx, table) == evaluate_v(*alternate, ctx, table),
        !(evaluate_v(*test, ctx, table) is Value) ==> evaluate_v(expr, ctx, table) == evaluate_v(
            *test,
            ctx,
            table,
        ),
{
    reveal_with_fuel(evaluate_v, 2);
}

/// A literal is its value, whatever is round it, and a name is the constant that
/// it is bound to.
pub proof fn a_literal_is_its_value(expr: Expr, inner: Rc<Expr>, ctx: ContextV, table: Seq<Answer>)
    ensures
        expr.kind matches Kind::Str(text) ==> evaluate_v(expr, ctx, table) == EvaluationV::Value(
            PrimitiveV::String(text@),
        ),
        expr.kind matches Kind::Num(number) ==> evaluate_v(expr, ctx, table) == EvaluationV::Value(
            PrimitiveV::Number(number@),
        ),
        expr.kind matches Kind::Bool(value) ==> evaluate_v(expr, ctx, table) == EvaluationV::Value(
            PrimitiveV::Boolean(value),
        ),
        expr.kind is Null ==> evaluate_v(expr, ctx, table) == EvaluationV::Value(PrimitiveV::Null),
        expr.kind == Kind::Paren(inner) ==> evaluate_v(expr, ctx, table) == evaluate_v(
            *inner,
            ctx,
            table,
        ),
        expr.kind matches Kind::Ident { symbol: Some(symbol), .. } ==> (ctx.constant(
            symbol.id,
        ) matches Some(value) ==> evaluate_v(expr, ctx, table) == EvaluationV::Value(
            PrimitiveV::of_text(value),
        )),
        expr.kind matches Kind::Ident { symbol: Some(symbol), .. } ==> (ctx.constant(symbol.id)
            is None ==> evaluate_v(expr, ctx, table) is Unknown),
        expr.kind is Call || expr.kind is Member || expr.kind is Arrow ==> evaluate_v(
            expr,
            ctx,
            table,
        ) is Unknown,
{
    reveal_with_fuel(evaluate_v, 2);
}

/// A template is its pieces with the texts of its expressions between them.
pub proof fn a_template_is_its_pieces(
    quasis: Seq<Quasi>,
    exprs: Seq<Rc<Expr>>,
    ctx: ContextV,
    table: Seq<Answer>,
)
    ensures
        quasis.len() >= 1 && exprs.len() == 0 ==> pieces_v(quasis, exprs, 1, ctx, table)
            == EvaluationV::Value(PrimitiveV::String(quasi_text(quasis[0]))),
        quasis.len() >= 2 && exprs.len() == 1 ==> (evaluate_v(
            *exprs[0],
            ctx,
            table,
        ) matches EvaluationV::Value(value) ==> pieces_v(quasis, exprs, 2, ctx, table)
            == EvaluationV::Value(
            PrimitiveV::String(quasi_text(quasis[0]) + value.js_text() + quasi_text(quasis[1])),
        )),
{
    let none = pieces_v(quasis, exprs, 0, ctx, table);
    assert(none == EvaluationV::Value(PrimitiveV::String(seq![])));
    assert(seq![] + quasi_text(quasis[0]) =~= quasi_text(quasis[0]));
    let one = pieces_v(quasis, exprs, 1, ctx, table);
    assert(exprs.len() == 1 ==> (evaluate_v(*exprs[0], ctx, table) matches EvaluationV::Value(value)
        ==> one == EvaluationV::Value(
        PrimitiveV::String(quasi_text(quasis[0]) + value.js_text()),
    )));
}

/// A template with more pieces is the text so far, the next piece, and the text
/// of the expression behind it.
pub proof fn a_longer_template_goes_on(
    quasis: Seq<Quasi>,
    exprs: Seq<Rc<Expr>>,
    n: nat,
    ctx: ContextV,
    table: Seq<Answer>,
)
    requires
        n < quasis.len(),
    ensures
        pieces_v(quasis, exprs, n, ctx, table) matches EvaluationV::Value(before) ==> {
            let after = pieces_v(quasis, exprs, n + 1, ctx, table);
            let text = before.js_text() + quasi_text(quasis[n as int]);
            &&& n >= exprs.len() ==> after == EvaluationV::Value(PrimitiveV::String(text))
            &&& n < exprs.len() ==> (evaluate_v(
                *exprs[n as int],
                ctx,
                table,
            ) matches EvaluationV::Value(value) ==> after == EvaluationV::Value(
                PrimitiveV::String(text + value.js_text()),
            ))
        },
        !(pieces_v(quasis, exprs, n, ctx, table) is Value) ==> pieces_v(
            quasis,
            exprs,
            n + 1,
            ctx,
            table,
        ) == pieces_v(quasis, exprs, n, ctx, table),
{
    reveal_with_fuel(pieces_v, 2);
}

/// A piece of a template is what it reads as, or what was written where it reads
/// as nothing.
pub proof fn a_piece_is_what_it_reads_as(quasi: Quasi)
    ensures
        quasi.cooked matches Some(text) ==> quasi_text(quasi) == text@,
        quasi.cooked is None ==> quasi_text(quasi) == quasi.raw@,
{
}

/// An expression is known to be fixed where all its parts are literals.
pub proof fn a_fixed_expression_has_fixed_parts(
    expr: Expr,
    left: Rc<Expr>,
    right: Rc<Expr>,
    binary: BinaryOp,
    logical: LogicalOp,
)
    ensures
        expr.kind is Str || expr.kind is Num || expr.kind is Bool || expr.kind is Null ==> confident(
            expr,
        ),
        expr.kind is Ident || expr.kind is Call || expr.kind is Member ==> !confident(expr),
        expr.kind == Kind::Paren(left) ==> confident(expr) == confident(*left),
        expr.kind == (Kind::Binary { op: binary, left, right }) ==> confident(expr) == (confident(
            *left,
        ) && confident(*right)),
        expr.kind == (Kind::Logical { op: logical, left, right }) ==> confident(expr) == (confident(
            *left,
        ) && confident(*right)),
{
    reveal_with_fuel(confident, 2);
}

} // verus!
