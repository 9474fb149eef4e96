//! Readers of code: what a call calls and with what, what a statement sets, and
//! to what.

use crate::ast::{AssignOp, ExprV, KeyV, KindV, LogicalOp, PropKind, PropV, StmtV, UnaryOp};
use vstd::prelude::*;

verus! {

/// An expression is this name.
pub open spec fn is_name(expr: ExprV, name: Seq<char>) -> bool {
    expr.kind matches KindV::Ident { name: n, .. } && n == name
}

/// An expression is this string.
pub open spec fn is_text(expr: ExprV, text: Seq<char>) -> bool {
    expr.kind matches KindV::Str(t) && t == text
}

/// An expression is this boolean.
pub open spec fn is_flag(expr: ExprV, value: bool) -> bool {
    expr.kind matches KindV::Bool(v) && v == value
}

/// An expression reads a property of an object.
pub open spec fn reads(expr: ExprV, object: ExprV, property: Seq<char>) -> bool {
    expr.kind matches KindV::Member { object: o, property: p, optional } && *o == object && p
        == property && !optional
}

/// An expression reads a property of what a name stands for.
pub open spec fn reads_of(expr: ExprV, name: Seq<char>, property: Seq<char>) -> bool {
    expr.kind matches KindV::Member { object: o, property: p, optional } && is_name(*o, name) && p
        == property && !optional
}

/// An expression is `name?.property`.
pub open spec fn may_read_of(expr: ExprV, name: Seq<char>, property: Seq<char>) -> bool {
    expr.kind matches KindV::Chain(inner) && (
    inner.kind matches KindV::Member { object: o, property: p, optional } && is_name(*o, name) && p
        == property && optional)
}

/// An expression is a call with `n` arguments, none of them a spread.
pub open spec fn is_call(expr: ExprV, n: nat) -> bool {
    expr.kind matches KindV::Call { args, optional, .. } && !optional && args.len() == n
        && forall|i: int| 0 <= i < n ==> (#[trigger] args[i]) is Expr
}

/// What a call calls.
pub open spec fn callee(expr: ExprV) -> ExprV {
    *expr.kind->Call_callee
}

/// An argument of a call.
pub open spec fn arg(expr: ExprV, i: int) -> ExprV {
    expr.kind->Call_args[i]->Expr_0
}

/// An expression calls a name with `n` arguments.
pub open spec fn calls(expr: ExprV, name: Seq<char>, n: nat) -> bool {
    is_call(expr, n) && is_name(callee(expr), name)
}

/// An expression calls a helper of the runtime with `n` arguments.
pub open spec fn calls_helper(expr: ExprV, helper: Seq<char>, n: nat) -> bool {
    calls(expr, "_$"@ + helper, n)
}

/// An expression assigns a value to a target.
pub open spec fn assigns(expr: ExprV, target: ExprV, value: ExprV) -> bool {
    expr.kind matches KindV::Assign { op, target: t, value: v } && op == AssignOp::Assign && *t
        == target && *v == value
}

/// An expression assigns a value to a property of what a name stands for.
pub open spec fn assigns_to(
    expr: ExprV,
    name: Seq<char>,
    property: Seq<char>,
    value: ExprV,
) -> bool {
    expr.kind matches KindV::Assign { op, target: t, value: v } && op == AssignOp::Assign
        && reads_of(*t, name, property) && *v == value
}

/// An expression is `() => inner`.
pub open spec fn is_thunk(expr: ExprV, inner: ExprV) -> bool {
    expr.kind matches KindV::Arrow { is_async, params, expression, body } && !is_async
        && params.len() == 0 && expression && body.len() == 1 && body[0] == StmtV::Expr(inner)
}

/// An expression is `!!inner`.
pub open spec fn is_cast(expr: ExprV, inner: ExprV) -> bool {
    expr.kind matches KindV::Unary { op, argument } && op == UnaryOp::Not && (
    argument.kind matches KindV::Unary { op: o, argument: a } && o == UnaryOp::Not && *a == inner)
}

/// An expression is `left op right`.
pub open spec fn is_logical(expr: ExprV, op: LogicalOp, left: ExprV, right: ExprV) -> bool {
    expr.kind matches KindV::Logical { op: o, left: l, right: r } && o == op && *l == left && *r
        == right
}

/// The left side of a logical expression.
pub open spec fn left_of(expr: ExprV) -> ExprV {
    *expr.kind->Logical_left
}

/// The right side of a logical expression.
pub open spec fn right_of(expr: ExprV) -> ExprV {
    *expr.kind->Logical_right
}

/// A property is a plain value under a name.
pub open spec fn holds_value(prop: PropV, name: Seq<char>, value: ExprV) -> bool {
    prop matches PropV::Named { kind, key, value: v, method, computed, .. } && kind
        == PropKind::Init && (key == KeyV::Ident(name) || key == KeyV::Str(name)) && v == value
        && !method && !computed
}

/// A property is a getter under a name that returns a value.
pub open spec fn gets_value(prop: PropV, name: Seq<char>, value: ExprV) -> bool {
    prop matches PropV::Named { kind, key, value: v, method, .. } && kind == PropKind::Getter && (
    key == KeyV::Ident(name) || key == KeyV::Str(name)) && !method && (
    v.kind matches KindV::Function { is_async, generator, params, body, .. } && !is_async
        && !generator && params.len() == 0 && body.len() == 1 && body[0] == StmtV::Return(
        Some(value),
    ))
}

/// An expression is a template literal without expressions, written like this.
pub open spec fn is_literal(expr: ExprV, raw: Seq<char>) -> bool {
    expr.kind matches KindV::Template { quasis, exprs } && exprs.len() == 0 && quasis.len() == 1
        && quasis[0].raw == raw
}

} // verus!
