//! Laws of the search for JSX.

use crate::ast::{DeclaratorV, ElementV, ExprV, KeyV, KindV, PropV, StmtV};
use crate::deferred::{
    declarator_s, declarators_s, element_s, elements_s, expr_s, exprs_s, key_s, kind_s, option_s,
    prop_s, props_s, stmt_s, stmts_s,
};
use vstd::prelude::*;

verus! {

/// What was found, if anything, is JSX.
pub open spec fn is_found(st: Option<ExprV>) -> bool {
    st matches Some(node) ==> node.kind is JsxElement || node.kind is JsxFragment
}

/// What the two ways to go through `whole` agree on: what is found does not
/// hang on what is put in its place, it is JSX, and nothing is replaced where
/// nothing is found or where something was found before.
spec fn agree<T>(
    whole: T,
    st: Option<ExprV>,
    x: (T, Option<ExprV>),
    y: (T, Option<ExprV>),
) -> bool {
    &&& x.1 == y.1
    &&& is_found(x.1)
    &&& x.1 is None ==> x.0 == whole
    &&& st is Some ==> x.0 == whole && y.0 == whole && x.1 == st
}

/// What is found in an expression is JSX, whatever is put in its place; and
/// where there is none the expression stays.
pub proof fn search_is_apart(expr: ExprV, a: ExprV, b: ExprV)
    ensures
        expr_s(expr, a, None).1 == expr_s(expr, b, None).1,
        is_found(expr_s(expr, a, None).1),
        expr_s(expr, a, None).1 is None ==> expr_s(expr, a, None).0 == expr,
{
    expr_agrees(expr, a, b, None);
}

proof fn expr_agrees(expr: ExprV, a: ExprV, b: ExprV, st: Option<ExprV>)
    requires
        is_found(st),
    ensures
        agree(expr, st, expr_s(expr, a, st), expr_s(expr, b, st)),
    decreases expr, 1nat,
{
    if st is None && !(expr.kind is JsxElement || expr.kind is JsxFragment) {
        kind_agrees(expr.kind, a, b, st);
    }
}

#[verifier::rlimit(40)]
proof fn kind_agrees(kind: KindV, a: ExprV, b: ExprV, st: Option<ExprV>)
    requires
        is_found(st),
    ensures
        agree(kind, st, kind_s(kind, a, st), kind_s(kind, b, st)),
    decreases kind, 0nat,
{
    match kind {
        KindV::Template { quasis, exprs } => {
            exprs_agree(exprs, exprs.len(), a, b, st);
            assert(exprs.take(exprs.len() as int) =~= exprs);
        },
        KindV::Array(items) => {
            elements_agree(items, items.len(), a, b, st);
            assert(items.take(items.len() as int) =~= items);
        },
        KindV::Object(props) => {
            props_agree(props, props.len(), a, b, st);
            assert(props.take(props.len() as int) =~= props);
        },
        KindV::Member { object, property, optional } => {
            expr_agrees(*object, a, b, st);
        },
        KindV::Index { object, index, optional } => {
            expr_agrees(*object, a, b, st);
            let st1 = expr_s(*object, a, st).1;
            expr_agrees(*index, a, b, st1);
        },
        KindV::PrivateMember { object, field } => {
            expr_agrees(*object, a, b, st);
        },
        KindV::Call { callee, args, optional } => {
            expr_agrees(*callee, a, b, st);
            let st1 = expr_s(*callee, a, st).1;
            elements_agree(args, args.len(), a, b, st1);
            assert(args.take(args.len() as int) =~= args);
        },
        KindV::Arrow { is_async, params, expression, body } => {
            stmts_agree(body, body.len(), a, b, st);
            assert(body.take(body.len() as int) =~= body);
        },
        KindV::Function { is_async, generator, name, params, body } => {
            stmts_agree(body, body.len(), a, b, st);
            assert(body.take(body.len() as int) =~= body);
        },
        KindV::Assign { op, target, value } => {
            expr_agrees(*target, a, b, st);
            let st1 = expr_s(*target, a, st).1;
            expr_agrees(*value, a, b, st1);
        },
        KindV::Unary { op, argument } => {
            expr_agrees(*argument, a, b, st);
        },
        KindV::Binary { op, left, right } => {
            expr_agrees(*left, a, b, st);
            let st1 = expr_s(*left, a, st).1;
            expr_agrees(*right, a, b, st1);
        },
        KindV::Logical { op, left, right } => {
            expr_agrees(*left, a, b, st);
            let st1 = expr_s(*left, a, st).1;
            expr_agrees(*right, a, b, st1);
        },
        KindV::Conditional { test, consequent, alternate } => {
            expr_agrees(*test, a, b, st);
            let st1 = expr_s(*test, a, st).1;
            expr_agrees(*consequent, a, b, st1);
            let st2 = expr_s(*consequent, a, st1).1;
            expr_agrees(*alternate, a, b, st2);
        },
        KindV::Sequence(items) => {
            exprs_agree(items, items.len(), a, b, st);
            assert(items.take(items.len() as int) =~= items);
        },
        KindV::Paren(inner) => {
            expr_agrees(*inner, a, b, st);
        },
        KindV::Chain(inner) => {
            expr_agrees(*inner, a, b, st);
        },
        KindV::Typed { wrapper, expr } => {
            expr_agrees(*expr, a, b, st);
        },
        _ => {},
    }
}

proof fn element_agrees(item: ElementV, a: ExprV, b: ExprV, st: Option<ExprV>)
    requires
        is_found(st),
    ensures
        agree(item, st, element_s(item, a, st), element_s(item, b, st)),
    decreases item, 0nat,
{
    match item {
        ElementV::Expr(expr) => {
            expr_agrees(expr, a, b, st);
        },
        ElementV::Spread(expr) => {
            expr_agrees(expr, a, b, st);
        },
        ElementV::Hole => {},
    }
}

proof fn key_agrees(item: KeyV, a: ExprV, b: ExprV, st: Option<ExprV>)
    requires
        is_found(st),
    ensures
        agree(item, st, key_s(item, a, st), key_s(item, b, st)),
    decreases item, 0nat,
{
    if let KeyV::Expr(expr) = item {
        expr_agrees(expr, a, b, st);
    }
}

proof fn prop_agrees(item: PropV, a: ExprV, b: ExprV, st: Option<ExprV>)
    requires
        is_found(st),
    ensures
        agree(item, st, prop_s(item, a, st), prop_s(item, b, st)),
    decreases item, 0nat,
{
    match item {
        PropV::Named { span, kind, key, value, method, shorthand, computed } => {
            key_agrees(key, a, b, st);
            expr_agrees(value, a, b, key_s(key, a, st).1);
        },
        PropV::Spread { span, argument } => {
            expr_agrees(argument, a, b, st);
        },
    }
}

proof fn option_agrees(item: Option<ExprV>, a: ExprV, b: ExprV, st: Option<ExprV>)
    requires
        is_found(st),
    ensures
        agree(item, st, option_s(item, a, st), option_s(item, b, st)),
    decreases item, 0nat,
{
    if let Some(expr) = item {
        expr_agrees(expr, a, b, st);
    }
}

proof fn declarator_agrees(item: DeclaratorV, a: ExprV, b: ExprV, st: Option<ExprV>)
    requires
        is_found(st),
    ensures
        agree(item, st, declarator_s(item, a, st), declarator_s(item, b, st)),
    decreases item, 0nat,
{
    option_agrees(item.init, a, b, st);
}

proof fn stmt_agrees(item: StmtV, a: ExprV, b: ExprV, st: Option<ExprV>)
    requires
        is_found(st),
    ensures
        agree(item, st, stmt_s(item, a, st), stmt_s(item, b, st)),
    decreases item, 0nat,
{
    match item {
        StmtV::Expr(expr) => {
            expr_agrees(expr, a, b, st);
        },
        StmtV::Return(expr) => {
            option_agrees(expr, a, b, st);
        },
        StmtV::Var { kind, declarators } => {
            declarators_agree(declarators, declarators.len(), a, b, st);
            assert(declarators.take(declarators.len() as int) =~= declarators);
        },
        StmtV::Block(body) => {
            stmts_agree(body, body.len(), a, b, st);
            assert(body.take(body.len() as int) =~= body);
        },
        StmtV::If { test, consequent, alternate } => {
            expr_agrees(test, a, b, st);
            let st1 = expr_s(test, a, st).1;
            stmt_agrees(*consequent, a, b, st1);
            let st2 = stmt_s(*consequent, a, st1).1;
            if let Some(alternate) = alternate {
                stmt_agrees(*alternate, a, b, st2);
            }
        },
        StmtV::Function { name, function, body } => {
            stmts_agree(body, body.len(), a, b, st);
            assert(body.take(body.len() as int) =~= body);
        },
        StmtV::Opaque(id) => {},
    }
}

proof fn exprs_agree(items: Seq<ExprV>, n: nat, a: ExprV, b: ExprV, st: Option<ExprV>)
    requires
        is_found(st),
        n <= items.len(),
    ensures
        agree(items.take(n as int), st, exprs_s(items, n, a, st), exprs_s(items, n, b, st)),
    decreases items, n,
{
    if n > 0 {
        let last = (n - 1) as nat;
        exprs_agree(items, last, a, b, st);
        expr_agrees(items[n - 1], a, b, exprs_s(items, last, a, st).1);
        assert(items.take(n as int) =~= items.take(last as int).push(items[n - 1]));
    } else {
        assert(items.take(0) =~= Seq::empty());
    }
}

proof fn elements_agree(items: Seq<ElementV>, n: nat, a: ExprV, b: ExprV, st: Option<ExprV>)
    requires
        is_found(st),
        n <= items.len(),
    ensures
        agree(items.take(n as int), st, elements_s(items, n, a, st), elements_s(items, n, b, st)),
    decreases items, n,
{
    if n > 0 {
        let last = (n - 1) as nat;
        elements_agree(items, last, a, b, st);
        element_agrees(items[n - 1], a, b, elements_s(items, last, a, st).1);
        assert(items.take(n as int) =~= items.take(last as int).push(items[n - 1]));
    } else {
        assert(items.take(0) =~= Seq::empty());
    }
}

proof fn props_agree(items: Seq<PropV>, n: nat, a: ExprV, b: ExprV, st: Option<ExprV>)
    requires
        is_found(st),
        n <= items.len(),
    ensures
        agree(items.take(n as int), st, props_s(items, n, a, st), props_s(items, n, b, st)),
    decreases items, n,
{
    if n > 0 {
        let last = (n - 1) as nat;
        props_agree(items, last, a, b, st);
        prop_agrees(items[n - 1], a, b, props_s(items, last, a, st).1);
        assert(items.take(n as int) =~= items.take(last as int).push(items[n - 1]));
    } else {
        assert(items.take(0) =~= Seq::empty());
    }
}

proof fn declarators_agree(items: Seq<DeclaratorV>, n: nat, a: ExprV, b: ExprV, st: Option<ExprV>)
    requires
        is_found(st),
        n <= items.len(),
    ensures
        agree(items.take(n as int), st, declarators_s(items, n, a, st), declarators_s(items, n, b, st)),
    decreases items, n,
{
    if n > 0 {
        let last = (n - 1) as nat;
        declarators_agree(items, last, a, b, st);
        declarator_agrees(items[n - 1], a, b, declarators_s(items, last, a, st).1);
        assert(items.take(n as int) =~= items.take(last as int).push(items[n - 1]));
    } else {
        assert(items.take(0) =~= Seq::empty());
    }
}

proof fn stmts_agree(items: Seq<StmtV>, n: nat, a: ExprV, b: ExprV, st: Option<ExprV>)
    requires
        is_found(st),
        n <= items.len(),
    ensures
        agree(items.take(n as int), st, stmts_s(items, n, a, st), stmts_s(items, n, b, st)),
    decreases items, n,
{
    if n > 0 {
        let last = (n - 1) as nat;
        stmts_agree(items, last, a, b, st);
        stmt_agrees(items[n - 1], a, b, stmts_s(items, last, a, st).1);
        assert(items.take(n as int) =~= items.take(last as int).push(items[n - 1]));
    } else {
        assert(items.take(0) =~= Seq::empty());
    }
}

} // verus!
