//! The JSX that an expression holds.

use crate::ast::{DeclaratorV, ElementV, ExprV, KeyV, KindV, PropV, StmtV};
use crate::deferred::{
    declarator_s, declarators_s, element_s, elements_s, expr_s, exprs_s, key_s, kind_s,
    option_s, prop_s, props_s, stmt_s, stmts_s,
};
use vstd::prelude::*;

verus! {

// ---------------------------------------------------------------------------
// What holds of all JSX
// ---------------------------------------------------------------------------

/// `p` holds of the kind of each JSX in an expression.
pub open spec fn holds(expr: ExprV, p: spec_fn(KindV) -> bool) -> bool
    decreases expr, 1nat,
{
    if expr.kind is JsxElement || expr.kind is JsxFragment {
        p(expr.kind)
    } else {
        kind_holds(expr.kind, p)
    }
}

/// The same of an expression of this kind.
pub open spec fn kind_holds(item: KindV, p: spec_fn(KindV) -> bool) -> bool
    decreases item, 0nat,
{
    match item {
        KindV::Template { exprs, .. } => exprs_hold(exprs, p),
        KindV::Array(items) => elements_hold(items, p),
        KindV::Object(props) => props_hold(props, p),
        KindV::Member { object, .. } => holds(*object, p),
        KindV::Index { object, index, .. } => holds(*object, p) && holds(*index, p),
        KindV::PrivateMember { object, .. } => holds(*object, p),
        KindV::Call { callee, args, .. } => holds(*callee, p) && elements_hold(args, p),
        KindV::Arrow { body, .. } => stmts_hold(body, p),
        KindV::Function { body, .. } => stmts_hold(body, p),
        KindV::Assign { target, value, .. } => holds(*target, p) && holds(*value, p),
        KindV::Unary { argument, .. } => holds(*argument, p),
        KindV::Binary { left, right, .. } => holds(*left, p) && holds(*right, p),
        KindV::Logical { left, right, .. } => holds(*left, p) && holds(*right, p),
        KindV::Conditional { test, consequent, alternate } => holds(*test, p) && holds(*consequent, p) && holds(*alternate, p),
        KindV::Sequence(items) => exprs_hold(items, p),
        KindV::Paren(inner) => holds(*inner, p),
        KindV::Chain(inner) => holds(*inner, p),
        KindV::Typed { expr, .. } => holds(*expr, p),
        _ => true,
    }
}

/// The same of an element or an argument.
pub open spec fn element_holds(item: ElementV, p: spec_fn(KindV) -> bool) -> bool
    decreases item, 0nat,
{
    match item {
        ElementV::Expr(expr) => holds(expr, p),
        ElementV::Spread(expr) => holds(expr, p),
        ElementV::Hole => true,
    }
}

/// The same of a key.
pub open spec fn key_holds(item: KeyV, p: spec_fn(KindV) -> bool) -> bool
    decreases item, 0nat,
{
    match item {
        KeyV::Expr(expr) => holds(expr, p),
        _ => true,
    }
}

/// The same of a property.
pub open spec fn prop_holds(item: PropV, p: spec_fn(KindV) -> bool) -> bool
    decreases item, 0nat,
{
    match item {
        PropV::Named { key, value, .. } => key_holds(key, p) && holds(value, p),
        PropV::Spread { argument, .. } => holds(argument, p),
    }
}

/// The same of an optional expression.
pub open spec fn option_holds(item: Option<ExprV>, p: spec_fn(KindV) -> bool) -> bool
    decreases item, 0nat,
{
    match item {
        None => true,
        Some(expr) => holds(expr, p),
    }
}

/// The same of a statement.
pub open spec fn stmt_holds(item: StmtV, p: spec_fn(KindV) -> bool) -> bool
    decreases item, 0nat,
{
    match item {
        StmtV::Expr(expr) => holds(expr, p),
        StmtV::Return(expr) => option_holds(expr, p),
        StmtV::Var { declarators, .. } => declarators_hold(declarators, p),
        StmtV::Block(body) => stmts_hold(body, p),
        StmtV::If { test, consequent, alternate } => holds(test, p) && stmt_holds(*consequent, p) && branch_holds(alternate, p),
        StmtV::Function { body, .. } => stmts_hold(body, p),
        StmtV::Opaque(_) => true,
    }
}

/// The same of a branch that may be missing.
pub open spec fn branch_holds(item: Option<Box<StmtV>>, p: spec_fn(KindV) -> bool) -> bool
    decreases item, 0nat,
{
    match item {
        None => true,
        Some(stmt) => stmt_holds(*stmt, p),
    }
}

/// The same of a declarator.
pub open spec fn declarator_holds(item: DeclaratorV, p: spec_fn(KindV) -> bool) -> bool
    decreases item, 0nat,
{
    option_holds(item.init, p)
}

/// The same of all expressions.
pub open spec fn exprs_hold(items: Seq<ExprV>, p: spec_fn(KindV) -> bool) -> bool
    decreases items, 0nat,
{
    forall|i: int| 0 <= i < items.len() ==> holds(#[trigger] items[i], p)
}

/// The same of all elements.
pub open spec fn elements_hold(items: Seq<ElementV>, p: spec_fn(KindV) -> bool) -> bool
    decreases items, 0nat,
{
    forall|i: int| 0 <= i < items.len() ==> element_holds(#[trigger] items[i], p)
}

/// The same of all properties.
pub open spec fn props_hold(items: Seq<PropV>, p: spec_fn(KindV) -> bool) -> bool
    decreases items, 0nat,
{
    forall|i: int| 0 <= i < items.len() ==> prop_holds(#[trigger] items[i], p)
}

/// The same of all declarators.
pub open spec fn declarators_hold(items: Seq<DeclaratorV>, p: spec_fn(KindV) -> bool) -> bool
    decreases items, 0nat,
{
    forall|i: int| 0 <= i < items.len() ==> declarator_holds(#[trigger] items[i], p)
}

/// The same of all statements.
pub open spec fn stmts_hold(items: Seq<StmtV>, p: spec_fn(KindV) -> bool) -> bool
    decreases items, 0nat,
{
    forall|i: int| 0 <= i < items.len() ==> stmt_holds(#[trigger] items[i], p)
}

// ---------------------------------------------------------------------------
// The JSX in the order of the source
// ---------------------------------------------------------------------------

/// The JSX in an expression, in the order of the source.
pub open spec fn jsx_in(expr: ExprV) -> Seq<ExprV>
    decreases expr, 1nat,
{
    if expr.kind is JsxElement || expr.kind is JsxFragment {
        seq![expr]
    } else {
        jsx_in_kind(expr.kind)
    }
}

/// The JSX in an expression of this kind.
pub open spec fn jsx_in_kind(item: KindV) -> Seq<ExprV>
    decreases item, 0nat,
{
    match item {
        KindV::Template { exprs, .. } => jsx_in_exprs(exprs, exprs.len()),
        KindV::Array(items) => jsx_in_elements(items, items.len()),
        KindV::Object(props) => jsx_in_props(props, props.len()),
        KindV::Member { object, .. } => jsx_in(*object),
        KindV::Index { object, index, .. } => jsx_in(*object) + jsx_in(*index),
        KindV::PrivateMember { object, .. } => jsx_in(*object),
        KindV::Call { callee, args, .. } => jsx_in(*callee) + jsx_in_elements(args, args.len()),
        KindV::Arrow { body, .. } => jsx_in_stmts(body, body.len()),
        KindV::Function { body, .. } => jsx_in_stmts(body, body.len()),
        KindV::Assign { target, value, .. } => jsx_in(*target) + jsx_in(*value),
        KindV::Unary { argument, .. } => jsx_in(*argument),
        KindV::Binary { left, right, .. } => jsx_in(*left) + jsx_in(*right),
        KindV::Logical { left, right, .. } => jsx_in(*left) + jsx_in(*right),
        KindV::Conditional { test, consequent, alternate } => jsx_in(*test) + jsx_in(*consequent) + jsx_in(*alternate),
        KindV::Sequence(items) => jsx_in_exprs(items, items.len()),
        KindV::Paren(inner) => jsx_in(*inner),
        KindV::Chain(inner) => jsx_in(*inner),
        KindV::Typed { expr, .. } => jsx_in(*expr),
        _ => Seq::empty(),
    }
}

/// The JSX in an element or an argument.
pub open spec fn jsx_in_element(item: ElementV) -> Seq<ExprV>
    decreases item, 0nat,
{
    match item {
        ElementV::Expr(expr) => jsx_in(expr),
        ElementV::Spread(expr) => jsx_in(expr),
        ElementV::Hole => Seq::empty(),
    }
}

/// The JSX in a key.
pub open spec fn jsx_in_key(item: KeyV) -> Seq<ExprV>
    decreases item, 0nat,
{
    match item {
        KeyV::Expr(expr) => jsx_in(expr),
        _ => Seq::empty(),
    }
}

/// The JSX in a property.
pub open spec fn jsx_in_prop(item: PropV) -> Seq<ExprV>
    decreases item, 0nat,
{
    match item {
        PropV::Named { key, value, .. } => jsx_in_key(key) + jsx_in(value),
        PropV::Spread { argument, .. } => jsx_in(argument),
    }
}

/// The JSX in an optional expression.
pub open spec fn jsx_in_option(item: Option<ExprV>) -> Seq<ExprV>
    decreases item, 0nat,
{
    match item {
        None => Seq::empty(),
        Some(expr) => jsx_in(expr),
    }
}

/// The JSX in a statement.
pub open spec fn jsx_in_stmt(item: StmtV) -> Seq<ExprV>
    decreases item, 0nat,
{
    match item {
        StmtV::Expr(expr) => jsx_in(expr),
        StmtV::Return(expr) => jsx_in_option(expr),
        StmtV::Var { declarators, .. } => jsx_in_declarators(declarators, declarators.len()),
        StmtV::Block(body) => jsx_in_stmts(body, body.len()),
        StmtV::If { test, consequent, alternate } => jsx_in(test) + jsx_in_stmt(*consequent) + jsx_in_branch(alternate),
        StmtV::Function { body, .. } => jsx_in_stmts(body, body.len()),
        StmtV::Opaque(_) => Seq::empty(),
    }
}

/// The JSX in a branch that may be missing.
pub open spec fn jsx_in_branch(item: Option<Box<StmtV>>) -> Seq<ExprV>
    decreases item, 0nat,
{
    match item {
        None => Seq::empty(),
        Some(stmt) => jsx_in_stmt(*stmt),
    }
}

/// The JSX in a declarator.
pub open spec fn jsx_in_declarator(item: DeclaratorV) -> Seq<ExprV>
    decreases item, 0nat,
{
    jsx_in_option(item.init)
}

/// The JSX in the first `n` expressions.
pub open spec fn jsx_in_exprs(items: Seq<ExprV>, n: nat) -> Seq<ExprV>
    decreases items, n,
{
    if n == 0 || n > items.len() {
        Seq::empty()
    } else {
        jsx_in_exprs(items, (n - 1) as nat) + jsx_in(items[n - 1])
    }
}

/// The JSX in the first `n` elements.
pub open spec fn jsx_in_elements(items: Seq<ElementV>, n: nat) -> Seq<ExprV>
    decreases items, n,
{
    if n == 0 || n > items.len() {
        Seq::empty()
    } else {
        jsx_in_elements(items, (n - 1) as nat) + jsx_in_element(items[n - 1])
    }
}

/// The JSX in the first `n` properties.
pub open spec fn jsx_in_props(items: Seq<PropV>, n: nat) -> Seq<ExprV>
    decreases items, n,
{
    if n == 0 || n > items.len() {
        Seq::empty()
    } else {
        jsx_in_props(items, (n - 1) as nat) + jsx_in_prop(items[n - 1])
    }
}

/// The JSX in the first `n` declarators.
pub open spec fn jsx_in_declarators(items: Seq<DeclaratorV>, n: nat) -> Seq<ExprV>
    decreases items, n,
{
    if n == 0 || n > items.len() {
        Seq::empty()
    } else {
        jsx_in_declarators(items, (n - 1) as nat) + jsx_in_declarator(items[n - 1])
    }
}

/// The JSX in the first `n` statements.
pub open spec fn jsx_in_stmts(items: Seq<StmtV>, n: nat) -> Seq<ExprV>
    decreases items, n,
{
    if n == 0 || n > items.len() {
        Seq::empty()
    } else {
        jsx_in_stmts(items, (n - 1) as nat) + jsx_in_stmt(items[n - 1])
    }
}

// ---------------------------------------------------------------------------
// The search for the first
// ---------------------------------------------------------------------------

/// `p` holds of the kind of each.
pub open spec fn all_kinds(items: Seq<ExprV>, p: spec_fn(KindV) -> bool) -> bool {
    forall|i: int| 0 <= i < items.len() ==> p((#[trigger] items[i]).kind)
}

/// How a search that puts `by` in the place of the first of `before` ends.
pub open spec fn found(
    before: Seq<ExprV>,
    after: Seq<ExprV>,
    by: Seq<ExprV>,
    st: Option<ExprV>,
    end: Option<ExprV>,
) -> bool {
    if st is Some {
        after == before && end == st
    } else if before.len() == 0 {
        after == before && end is None
    } else {
        after == by + before.skip(1) && end == Some(before[0])
    }
}

proof fn searches_join(
    a: Seq<ExprV>,
    a2: Seq<ExprV>,
    b: Seq<ExprV>,
    b2: Seq<ExprV>,
    by: Seq<ExprV>,
    st: Option<ExprV>,
    mid: Option<ExprV>,
    end: Option<ExprV>,
)
    requires
        found(a, a2, by, st, mid),
        found(b, b2, by, mid, end),
    ensures
        found(a + b, a2 + b2, by, st, end),
{
    if st is None {
        if a.len() == 0 {
            assert(a + b =~= b);
            assert(a2 + b2 =~= b2);
        } else {
            assert((a + b).skip(1) =~= a.skip(1) + b);
            assert(a2 + b2 =~= by + (a.skip(1) + b));
        }
    }
}

proof fn kinds_join(a: Seq<ExprV>, b: Seq<ExprV>, p: spec_fn(KindV) -> bool)
    requires
        all_kinds(a, p),
        all_kinds(b, p),
    ensures
        all_kinds(a + b, p),
{
}

/// The search meets the first JSX of the source and puts the other expression
/// in its place; what holds of all JSX holds of each in the list.
pub proof fn search_in_order(
    expr: ExprV,
    by: ExprV,
    st: Option<ExprV>,
    p: spec_fn(KindV) -> bool,
)
    ensures
        found(jsx_in(expr), jsx_in(expr_s(expr, by, st).0), jsx_in(by), st, expr_s(expr, by, st).1),
        holds(expr, p) ==> all_kinds(jsx_in(expr), p),
    decreases expr, 1nat,
{
    if expr.kind is JsxElement || expr.kind is JsxFragment {
        assert(seq![expr].skip(1) =~= Seq::empty());
        assert(jsx_in(by) + Seq::empty() =~= jsx_in(by));
    } else {
        kind_in_order(expr.kind, by, st, p);
    }
}

/// The search in a branch that may be missing.
spec fn branch_s(item: Option<Box<StmtV>>, by: ExprV, st: Option<ExprV>) -> (
    Option<Box<StmtV>>,
    Option<ExprV>,
) {
    match item {
        None => (None, st),
        Some(stmt) => {
            let (stmt, st) = stmt_s(*stmt, by, st);
            (Some(Box::new(stmt)), st)
        },
    }
}

#[verifier::rlimit(60)]
proof fn kind_in_order(
    item: KindV,
    by: ExprV,
    st: Option<ExprV>,
    p: spec_fn(KindV) -> bool,
)
    ensures
        found(jsx_in_kind(item), jsx_in_kind(kind_s(item, by, st).0), jsx_in(by), st, kind_s(item, by, st).1),
        kind_holds(item, p) ==> all_kinds(jsx_in_kind(item), p),
    decreases item, 0nat,
{
    match item {
        KindV::Template { exprs, .. } => {
            exprs_in_order(exprs, exprs.len(), by, st, p);
        },
        KindV::Array(items) => {
            elements_in_order(items, items.len(), by, st, p);
        },
        KindV::Object(props) => {
            props_in_order(props, props.len(), by, st, p);
        },
        KindV::Member { object, .. } => {
            search_in_order(*object, by, st, p);
        },
        KindV::Index { object, index, .. } => {
            search_in_order(*object, by, st, p);
            let s0 = expr_s(*object, by, st);
            search_in_order(*index, by, s0.1, p);
            let s1 = expr_s(*index, by, s0.1);
            searches_join(
                jsx_in(*object),
                jsx_in(s0.0),
                jsx_in(*index),
                jsx_in(s1.0),
                jsx_in(by),
                st,
                s0.1,
                s1.1,
            );
            if holds(*object, p) && holds(*index, p) {
                kinds_join(jsx_in(*object), jsx_in(*index), p);
            }
        },
        KindV::PrivateMember { object, .. } => {
            search_in_order(*object, by, st, p);
        },
        KindV::Call { callee, args, .. } => {
            search_in_order(*callee, by, st, p);
            let s0 = expr_s(*callee, by, st);
            elements_in_order(args, args.len(), by, s0.1, p);
            let s1 = elements_s(args, args.len(), by, s0.1);
            searches_join(
                jsx_in(*callee),
                jsx_in(s0.0),
                jsx_in_elements(args, args.len()),
                jsx_in_elements(s1.0, s1.0.len()),
                jsx_in(by),
                st,
                s0.1,
                s1.1,
            );
            if holds(*callee, p) && elements_hold(args, p) {
                kinds_join(jsx_in(*callee), jsx_in_elements(args, args.len()), p);
            }
        },
        KindV::Arrow { body, .. } => {
            stmts_in_order(body, body.len(), by, st, p);
        },
        KindV::Function { body, .. } => {
            stmts_in_order(body, body.len(), by, st, p);
        },
        KindV::Assign { target, value, .. } => {
            search_in_order(*target, by, st, p);
            let s0 = expr_s(*target, by, st);
            search_in_order(*value, by, s0.1, p);
            let s1 = expr_s(*value, by, s0.1);
            searches_join(
                jsx_in(*target),
                jsx_in(s0.0),
                jsx_in(*value),
                jsx_in(s1.0),
                jsx_in(by),
                st,
                s0.1,
                s1.1,
            );
            if holds(*target, p) && holds(*value, p) {
                kinds_join(jsx_in(*target), jsx_in(*value), p);
            }
        },
        KindV::Unary { argument, .. } => {
            search_in_order(*argument, by, st, p);
        },
        KindV::Binary { left, right, .. } => {
            search_in_order(*left, by, st, p);
            let s0 = expr_s(*left, by, st);
            search_in_order(*right, by, s0.1, p);
            let s1 = expr_s(*right, by, s0.1);
            searches_join(
                jsx_in(*left),
                jsx_in(s0.0),
                jsx_in(*right),
                jsx_in(s1.0),
                jsx_in(by),
                st,
                s0.1,
                s1.1,
            );
            if holds(*left, p) && holds(*right, p) {
                kinds_join(jsx_in(*left), jsx_in(*right), p);
            }
        },
        KindV::Logical { left, right, .. } => {
            search_in_order(*left, by, st, p);
            let s0 = expr_s(*left, by, st);
            search_in_order(*right, by, s0.1, p);
            let s1 = expr_s(*right, by, s0.1);
            searches_join(
                jsx_in(*left),
                jsx_in(s0.0),
                jsx_in(*right),
                jsx_in(s1.0),
                jsx_in(by),
                st,
                s0.1,
                s1.1,
            );
            if holds(*left, p) && holds(*right, p) {
                kinds_join(jsx_in(*left), jsx_in(*right), p);
            }
        },
        KindV::Conditional { test, consequent, alternate } => {
            search_in_order(*test, by, st, p);
            let s0 = expr_s(*test, by, st);
            search_in_order(*consequent, by, s0.1, p);
            let s1 = expr_s(*consequent, by, s0.1);
            search_in_order(*alternate, by, s1.1, p);
            let s2 = expr_s(*alternate, by, s1.1);
            searches_join(
                jsx_in(*test),
                jsx_in(s0.0),
                jsx_in(*consequent),
                jsx_in(s1.0),
                jsx_in(by),
                st,
                s0.1,
                s1.1,
            );
            if holds(*test, p) && holds(*consequent, p) {
                kinds_join(jsx_in(*test), jsx_in(*consequent), p);
            }
            searches_join(
                jsx_in(*test) + jsx_in(*consequent),
                jsx_in(s0.0) + jsx_in(s1.0),
                jsx_in(*alternate),
                jsx_in(s2.0),
                jsx_in(by),
                st,
                s1.1,
                s2.1,
            );
            if holds(*test, p) && holds(*consequent, p) && holds(*alternate, p) {
                kinds_join(jsx_in(*test) + jsx_in(*consequent), jsx_in(*alternate), p);
            }
        },
        KindV::Sequence(items) => {
            exprs_in_order(items, items.len(), by, st, p);
        },
        KindV::Paren(inner) => {
            search_in_order(*inner, by, st, p);
        },
        KindV::Chain(inner) => {
            search_in_order(*inner, by, st, p);
        },
        KindV::Typed { expr, .. } => {
            search_in_order(*expr, by, st, p);
        },
        _ => {},
    }
}

proof fn element_in_order(
    item: ElementV,
    by: ExprV,
    st: Option<ExprV>,
    p: spec_fn(KindV) -> bool,
)
    ensures
        found(jsx_in_element(item), jsx_in_element(element_s(item, by, st).0), jsx_in(by), st, element_s(item, by, st).1),
        element_holds(item, p) ==> all_kinds(jsx_in_element(item), p),
    decreases item, 0nat,
{
    match item {
        ElementV::Expr(expr) => {
            search_in_order(expr, by, st, p);
        },
        ElementV::Spread(expr) => {
            search_in_order(expr, by, st, p);
        },
        ElementV::Hole => {},
    }
}

proof fn key_in_order(
    item: KeyV,
    by: ExprV,
    st: Option<ExprV>,
    p: spec_fn(KindV) -> bool,
)
    ensures
        found(jsx_in_key(item), jsx_in_key(key_s(item, by, st).0), jsx_in(by), st, key_s(item, by, st).1),
        key_holds(item, p) ==> all_kinds(jsx_in_key(item), p),
    decreases item, 0nat,
{
    match item {
        KeyV::Expr(expr) => {
            search_in_order(expr, by, st, p);
        },
        _ => {},
    }
}

proof fn prop_in_order(
    item: PropV,
    by: ExprV,
    st: Option<ExprV>,
    p: spec_fn(KindV) -> bool,
)
    ensures
        found(jsx_in_prop(item), jsx_in_prop(prop_s(item, by, st).0), jsx_in(by), st, prop_s(item, by, st).1),
        prop_holds(item, p) ==> all_kinds(jsx_in_prop(item), p),
    decreases item, 0nat,
{
    match item {
        PropV::Named { key, value, .. } => {
            key_in_order(key, by, st, p);
            let s0 = key_s(key, by, st);
            search_in_order(value, by, s0.1, p);
            let s1 = expr_s(value, by, s0.1);
            searches_join(
                jsx_in_key(key),
                jsx_in_key(s0.0),
                jsx_in(value),
                jsx_in(s1.0),
                jsx_in(by),
                st,
                s0.1,
                s1.1,
            );
            if key_holds(key, p) && holds(value, p) {
                kinds_join(jsx_in_key(key), jsx_in(value), p);
            }
        },
        PropV::Spread { argument, .. } => {
            search_in_order(argument, by, st, p);
        },
    }
}

proof fn option_in_order(
    item: Option<ExprV>,
    by: ExprV,
    st: Option<ExprV>,
    p: spec_fn(KindV) -> bool,
)
    ensures
        found(jsx_in_option(item), jsx_in_option(option_s(item, by, st).0), jsx_in(by), st, option_s(item, by, st).1),
        option_holds(item, p) ==> all_kinds(jsx_in_option(item), p),
    decreases item, 0nat,
{
    match item {
        None => {},
        Some(expr) => {
            search_in_order(expr, by, st, p);
        },
    }
}

proof fn stmt_in_order(
    item: StmtV,
    by: ExprV,
    st: Option<ExprV>,
    p: spec_fn(KindV) -> bool,
)
    ensures
        found(jsx_in_stmt(item), jsx_in_stmt(stmt_s(item, by, st).0), jsx_in(by), st, stmt_s(item, by, st).1),
        stmt_holds(item, p) ==> all_kinds(jsx_in_stmt(item), p),
    decreases item, 0nat,
{
    match item {
        StmtV::Expr(expr) => {
            search_in_order(expr, by, st, p);
        },
        StmtV::Return(expr) => {
            option_in_order(expr, by, st, p);
        },
        StmtV::Var { declarators, .. } => {
            declarators_in_order(declarators, declarators.len(), by, st, p);
        },
        StmtV::Block(body) => {
            stmts_in_order(body, body.len(), by, st, p);
        },
        StmtV::If { test, consequent, alternate } => {
            search_in_order(test, by, st, p);
            let s0 = expr_s(test, by, st);
            stmt_in_order(*consequent, by, s0.1, p);
            let s1 = stmt_s(*consequent, by, s0.1);
            branch_in_order(alternate, by, s1.1, p);
            let s2 = branch_s(alternate, by, s1.1);
            searches_join(
                jsx_in(test),
                jsx_in(s0.0),
                jsx_in_stmt(*consequent),
                jsx_in_stmt(s1.0),
                jsx_in(by),
                st,
                s0.1,
                s1.1,
            );
            if holds(test, p) && stmt_holds(*consequent, p) {
                kinds_join(jsx_in(test), jsx_in_stmt(*consequent), p);
            }
            searches_join(
                jsx_in(test) + jsx_in_stmt(*consequent),
                jsx_in(s0.0) + jsx_in_stmt(s1.0),
                jsx_in_branch(alternate),
                jsx_in_branch(s2.0),
                jsx_in(by),
                st,
                s1.1,
                s2.1,
            );
            if holds(test, p) && stmt_holds(*consequent, p) && branch_holds(alternate, p) {
                kinds_join(jsx_in(test) + jsx_in_stmt(*consequent), jsx_in_branch(alternate), p);
            }
        },
        StmtV::Function { body, .. } => {
            stmts_in_order(body, body.len(), by, st, p);
        },
        StmtV::Opaque(_) => {},
    }
}

proof fn branch_in_order(
    item: Option<Box<StmtV>>,
    by: ExprV,
    st: Option<ExprV>,
    p: spec_fn(KindV) -> bool,
)
    ensures
        found(jsx_in_branch(item), jsx_in_branch(branch_s(item, by, st).0), jsx_in(by), st, branch_s(item, by, st).1),
        branch_holds(item, p) ==> all_kinds(jsx_in_branch(item), p),
    decreases item, 0nat,
{
    match item {
        None => {},
        Some(stmt) => {
            stmt_in_order(*stmt, by, st, p);
        },
    }
}

proof fn declarator_in_order(
    item: DeclaratorV,
    by: ExprV,
    st: Option<ExprV>,
    p: spec_fn(KindV) -> bool,
)
    ensures
        found(
            jsx_in_declarator(item),
            jsx_in_declarator(declarator_s(item, by, st).0),
            jsx_in(by),
            st,
            declarator_s(item, by, st).1,
        ),
        declarator_holds(item, p) ==> all_kinds(jsx_in_declarator(item), p),
    decreases item, 0nat,
{
    option_in_order(item.init, by, st, p);
}

proof fn expr_prefix_is_apart(items: Seq<ExprV>, more: Seq<ExprV>, n: nat)
    requires
        n <= items.len() <= more.len(),
        forall|i: int| 0 <= i < n ==> items[i] == more[i],
    ensures
        jsx_in_exprs(items, n) == jsx_in_exprs(more, n),
    decreases n,
{
    if n > 0 {
        expr_prefix_is_apart(items, more, (n - 1) as nat);
    }
}

proof fn exprs_in_order(
    items: Seq<ExprV>,
    n: nat,
    by: ExprV,
    st: Option<ExprV>,
    p: spec_fn(KindV) -> bool,
)
    requires
        n <= items.len(),
    ensures
        exprs_s(items, n, by, st).0.len() == n,
        found(
            jsx_in_exprs(items, n),
            jsx_in_exprs(exprs_s(items, n, by, st).0, n),
            jsx_in(by),
            st,
            exprs_s(items, n, by, st).1,
        ),
        exprs_hold(items, p) ==> all_kinds(jsx_in_exprs(items, n), p),
    decreases items, n,
{
    if n > 0 {
        let last = (n - 1) as nat;
        exprs_in_order(items, last, by, st, p);
        let before = exprs_s(items, last, by, st);
        search_in_order(items[n - 1], by, before.1, p);
        let done = expr_s(items[n - 1], by, before.1);
        let all = exprs_s(items, n, by, st).0;
        assert(all == before.0.push(done.0));
        expr_prefix_is_apart(before.0, all, last);
        searches_join(
            jsx_in_exprs(items, last),
            jsx_in_exprs(before.0, last),
            jsx_in(items[n - 1]),
            jsx_in(done.0),
            jsx_in(by),
            st,
            before.1,
            done.1,
        );
        if exprs_hold(items, p) {
            assert(holds(items[n - 1], p));
            kinds_join(jsx_in_exprs(items, last), jsx_in(items[n - 1]), p);
        }
    }
}

proof fn element_prefix_is_apart(items: Seq<ElementV>, more: Seq<ElementV>, n: nat)
    requires
        n <= items.len() <= more.len(),
        forall|i: int| 0 <= i < n ==> items[i] == more[i],
    ensures
        jsx_in_elements(items, n) == jsx_in_elements(more, n),
    decreases n,
{
    if n > 0 {
        element_prefix_is_apart(items, more, (n - 1) as nat);
    }
}

proof fn elements_in_order(
    items: Seq<ElementV>,
    n: nat,
    by: ExprV,
    st: Option<ExprV>,
    p: spec_fn(KindV) -> bool,
)
    requires
        n <= items.len(),
    ensures
        elements_s(items, n, by, st).0.len() == n,
        found(
            jsx_in_elements(items, n),
            jsx_in_elements(elements_s(items, n, by, st).0, n),
            jsx_in(by),
            st,
            elements_s(items, n, by, st).1,
        ),
        elements_hold(items, p) ==> all_kinds(jsx_in_elements(items, n), p),
    decreases items, n,
{
    if n > 0 {
        let last = (n - 1) as nat;
        elements_in_order(items, last, by, st, p);
        let before = elements_s(items, last, by, st);
        element_in_order(items[n - 1], by, before.1, p);
        let done = element_s(items[n - 1], by, before.1);
        let all = elements_s(items, n, by, st).0;
        assert(all == before.0.push(done.0));
        element_prefix_is_apart(before.0, all, last);
        searches_join(
            jsx_in_elements(items, last),
            jsx_in_elements(before.0, last),
            jsx_in_element(items[n - 1]),
            jsx_in_element(done.0),
            jsx_in(by),
            st,
            before.1,
            done.1,
        );
        if elements_hold(items, p) {
            assert(element_holds(items[n - 1], p));
            kinds_join(jsx_in_elements(items, last), jsx_in_element(items[n - 1]), p);
        }
    }
}

proof fn prop_prefix_is_apart(items: Seq<PropV>, more: Seq<PropV>, n: nat)
    requires
        n <= items.len() <= more.len(),
        forall|i: int| 0 <= i < n ==> items[i] == more[i],
    ensures
        jsx_in_props(items, n) == jsx_in_props(more, n),
    decreases n,
{
    if n > 0 {
        prop_prefix_is_apart(items, more, (n - 1) as nat);
    }
}

proof fn props_in_order(
    items: Seq<PropV>,
    n: nat,
    by: ExprV,
    st: Option<ExprV>,
    p: spec_fn(KindV) -> bool,
)
    requires
        n <= items.len(),
    ensures
        props_s(items, n, by, st).0.len() == n,
        found(
            jsx_in_props(items, n),
            jsx_in_props(props_s(items, n, by, st).0, n),
            jsx_in(by),
            st,
            props_s(items, n, by, st).1,
        ),
        props_hold(items, p) ==> all_kinds(jsx_in_props(items, n), p),
    decreases items, n,
{
    if n > 0 {
        let last = (n - 1) as nat;
        props_in_order(items, last, by, st, p);
        let before = props_s(items, last, by, st);
        prop_in_order(items[n - 1], by, before.1, p);
        let done = prop_s(items[n - 1], by, before.1);
        let all = props_s(items, n, by, st).0;
        assert(all == before.0.push(done.0));
        prop_prefix_is_apart(before.0, all, last);
        searches_join(
            jsx_in_props(items, last),
            jsx_in_props(before.0, last),
            jsx_in_prop(items[n - 1]),
            jsx_in_prop(done.0),
            jsx_in(by),
            st,
            before.1,
            done.1,
        );
        if props_hold(items, p) {
            assert(prop_holds(items[n - 1], p));
            kinds_join(jsx_in_props(items, last), jsx_in_prop(items[n - 1]), p);
        }
    }
}

proof fn declarator_prefix_is_apart(items: Seq<DeclaratorV>, more: Seq<DeclaratorV>, n: nat)
    requires
        n <= items.len() <= more.len(),
        forall|i: int| 0 <= i < n ==> items[i] == more[i],
    ensures
        jsx_in_declarators(items, n) == jsx_in_declarators(more, n),
    decreases n,
{
    if n > 0 {
        declarator_prefix_is_apart(items, more, (n - 1) as nat);
    }
}

proof fn declarators_in_order(
    items: Seq<DeclaratorV>,
    n: nat,
    by: ExprV,
    st: Option<ExprV>,
    p: spec_fn(KindV) -> bool,
)
    requires
        n <= items.len(),
    ensures
        declarators_s(items, n, by, st).0.len() == n,
        found(
            jsx_in_declarators(items, n),
            jsx_in_declarators(declarators_s(items, n, by, st).0, n),
            jsx_in(by),
            st,
            declarators_s(items, n, by, st).1,
        ),
        declarators_hold(items, p) ==> all_kinds(jsx_in_declarators(items, n), p),
    decreases items, n,
{
    if n > 0 {
        let last = (n - 1) as nat;
        declarators_in_order(items, last, by, st, p);
        let before = declarators_s(items, last, by, st);
        declarator_in_order(items[n - 1], by, before.1, p);
        let done = declarator_s(items[n - 1], by, before.1);
        let all = declarators_s(items, n, by, st).0;
        assert(all == before.0.push(done.0));
        declarator_prefix_is_apart(before.0, all, last);
        searches_join(
            jsx_in_declarators(items, last),
            jsx_in_declarators(before.0, last),
            jsx_in_declarator(items[n - 1]),
            jsx_in_declarator(done.0),
            jsx_in(by),
            st,
            before.1,
            done.1,
        );
        if declarators_hold(items, p) {
            assert(declarator_holds(items[n - 1], p));
            kinds_join(jsx_in_declarators(items, last), jsx_in_declarator(items[n - 1]), p);
        }
    }
}

proof fn stmt_prefix_is_apart(items: Seq<StmtV>, more: Seq<StmtV>, n: nat)
    requires
        n <= items.len() <= more.len(),
        forall|i: int| 0 <= i < n ==> items[i] == more[i],
    ensures
        jsx_in_stmts(items, n) == jsx_in_stmts(more, n),
    decreases n,
{
    if n > 0 {
        stmt_prefix_is_apart(items, more, (n - 1) as nat);
    }
}

proof fn stmts_in_order(
    items: Seq<StmtV>,
    n: nat,
    by: ExprV,
    st: Option<ExprV>,
    p: spec_fn(KindV) -> bool,
)
    requires
        n <= items.len(),
    ensures
        stmts_s(items, n, by, st).0.len() == n,
        found(
            jsx_in_stmts(items, n),
            jsx_in_stmts(stmts_s(items, n, by, st).0, n),
            jsx_in(by),
            st,
            stmts_s(items, n, by, st).1,
        ),
        stmts_hold(items, p) ==> all_kinds(jsx_in_stmts(items, n), p),
    decreases items, n,
{
    if n > 0 {
        let last = (n - 1) as nat;
        stmts_in_order(items, last, by, st, p);
        let before = stmts_s(items, last, by, st);
        stmt_in_order(items[n - 1], by, before.1, p);
        let done = stmt_s(items[n - 1], by, before.1);
        let all = stmts_s(items, n, by, st).0;
        assert(all == before.0.push(done.0));
        stmt_prefix_is_apart(before.0, all, last);
        searches_join(
            jsx_in_stmts(items, last),
            jsx_in_stmts(before.0, last),
            jsx_in_stmt(items[n - 1]),
            jsx_in_stmt(done.0),
            jsx_in(by),
            st,
            before.1,
            done.1,
        );
        if stmts_hold(items, p) {
            assert(stmt_holds(items[n - 1], p));
            kinds_join(jsx_in_stmts(items, last), jsx_in_stmt(items[n - 1]), p);
        }
    }
}

} // verus!
