//! What escaping an expression keeps, and what it leaves unescaped.

use crate::ast::{ExprV, KindV, LogicalOp, StmtV};
use crate::escape::{
    escaped_body_v, escaped_each_v, escaped_function_v, escaped_v, spaced_v,
};
use crate::shape::{arg, calls_helper, is_flag, is_text};
use crate::ssr::SsrContextV;
use crate::text_laws::{breaks_out, unescaped};
use vstd::prelude::*;

verus! {

/// An expression is `escape(x)`, or `escape(x, true)` for an attribute.
pub open spec fn is_escape(expr: ExprV, attr: bool) -> bool {
    if attr {
        calls_helper(expr, "escape"@, 2) && is_flag(arg(expr, 1), true)
    } else {
        calls_helper(expr, "escape"@, 1)
    }
}

// ---------------------------------------------------------------------------
// Escaping is undone
// ---------------------------------------------------------------------------

/// An expression with the calls of `escape` that stand for its value taken away.
pub open spec fn bared(expr: ExprV, attr: bool) -> ExprV
    decreases expr, 1nat,
{
    match expr.kind {
        KindV::Template { quasis, exprs } => ExprV {
            kind: KindV::Template { quasis, exprs: bared_each(exprs, exprs.len(), attr) },
            ..expr
        },
        KindV::Function { .. } => bared_function(expr, attr),
        KindV::Arrow { .. } => bared_function(expr, attr),
        KindV::Binary { op, left, right } => ExprV {
            kind: KindV::Binary {
                op,
                left: Box::new(bared(*left, attr)),
                right: Box::new(bared(*right, attr)),
            },
            ..expr
        },
        KindV::Conditional { test, consequent, alternate } => ExprV {
            kind: KindV::Conditional {
                test,
                consequent: Box::new(bared(*consequent, attr)),
                alternate: Box::new(bared(*alternate, attr)),
            },
            ..expr
        },
        KindV::Logical { op, left, right } => ExprV {
            kind: KindV::Logical {
                op,
                left: Box::new(
                    if op == LogicalOp::And {
                        *left
                    } else {
                        bared(*left, attr)
                    },
                ),
                right: Box::new(bared(*right, attr)),
            },
            ..expr
        },
        KindV::Call { callee, args, optional } => if is_escape(expr, attr) {
            arg(expr, 0)
        } else {
            ExprV {
                kind: KindV::Call {
                    callee: Box::new(bared_function(*callee, attr)),
                    args,
                    optional,
                },
                ..expr
            }
        },
        _ => expr,
    }
}

/// A function with the calls of `escape` round what it returns taken away.
pub open spec fn bared_function(expr: ExprV, attr: bool) -> ExprV
    decreases expr, 0nat,
{
    match expr.kind {
        KindV::Function { is_async, generator, name, params, body } => ExprV {
            kind: KindV::Function {
                is_async,
                generator,
                name,
                params,
                body: bared_body(body, body.len(), false, attr),
            },
            ..expr
        },
        KindV::Arrow { is_async, params, expression, body } => ExprV {
            kind: KindV::Arrow {
                is_async,
                params,
                expression,
                body: bared_body(body, body.len(), expression, attr),
            },
            ..expr
        },
        _ => expr,
    }
}

/// A statement with the calls of `escape` round what it returns taken away.
pub open spec fn bared_stmt(stmt: StmtV, value: bool, expression: bool, attr: bool) -> StmtV
    decreases stmt, 0nat,
{
    match stmt {
        StmtV::Return(Some(argument)) => if expression {
            stmt
        } else {
            StmtV::Return(Some(bared(argument, attr)))
        },
        StmtV::Expr(inner) => if value {
            StmtV::Expr(bared(inner, attr))
        } else {
            stmt
        },
        _ => stmt,
    }
}

/// The first `n` statements of a body, likewise.
pub open spec fn bared_body(body: Seq<StmtV>, n: nat, expression: bool, attr: bool) -> Seq<StmtV>
    decreases body, n,
{
    if n == 0 || n > body.len() {
        seq![]
    } else {
        bared_body(body, (n - 1) as nat, expression, attr).push(
            bared_stmt(body[n - 1], expression && n == 1, expression, attr),
        )
    }
}

/// The first `n` expressions of a list, likewise.
pub open spec fn bared_each(exprs: Seq<ExprV>, n: nat, attr: bool) -> Seq<ExprV>
    decreases exprs, n,
{
    if n == 0 || n > exprs.len() {
        seq![]
    } else {
        bared_each(exprs, (n - 1) as nat, attr).push(bared(exprs[n - 1], attr))
    }
}

proof fn bared_body_is_each(body: Seq<StmtV>, n: nat, expression: bool, attr: bool)
    requires
        n <= body.len(),
    ensures
        bared_body(body, n, expression, attr).len() == n,
        forall|i: int|
            0 <= i < n ==> #[trigger] bared_body(body, n, expression, attr)[i] == bared_stmt(
                body[i],
                expression && i == 0,
                expression,
                attr,
            ),
    decreases n,
{
    if n > 0 {
        bared_body_is_each(body, (n - 1) as nat, expression, attr);
    }
}

proof fn bared_each_is_each(exprs: Seq<ExprV>, n: nat, attr: bool)
    requires
        n <= exprs.len(),
    ensures
        bared_each(exprs, n, attr).len() == n,
        forall|i: int|
            0 <= i < n ==> #[trigger] bared_each(exprs, n, attr)[i] == bared(exprs[i], attr),
    decreases n,
{
    if n > 0 {
        bared_each_is_each(exprs, (n - 1) as nat, attr);
    }
}

/// Escaping adds calls of `escape` and nothing else: with them taken away, the
/// expression is what it was.
pub proof fn escaping_is_undone(expr: ExprV, attr: bool, ctx: SsrContextV)
    ensures
        bared(escaped_v(expr, attr, false, ctx).0, attr) == expr,
    decreases expr, 1nat,
{
    let out = escaped_v(expr, attr, false, ctx).0;
    match expr.kind {
        KindV::Template { quasis, exprs } => {
            if exprs.len() > 0 {
                each_is_undone(exprs, exprs.len(), attr, ctx);
                let done = escaped_each_v(exprs, exprs.len(), attr, false, ctx).0;
                bared_each_is_each(done, done.len(), attr);
                assert(bared_each(done, done.len(), attr) =~= exprs);
            } else {
                assert(bared_each(exprs, 0, attr) =~= exprs);
            }
        },
        KindV::Function { .. } => function_is_undone(expr, attr, ctx),
        KindV::Arrow { .. } => function_is_undone(expr, attr, ctx),
        KindV::Binary { op, left, right } => {
            escaping_is_undone(*left, attr, ctx);
            let a = escaped_v(*left, attr, false, ctx);
            escaping_is_undone(*right, attr, a.1);
        },
        KindV::Conditional { test, consequent, alternate } => {
            escaping_is_undone(*consequent, attr, ctx);
            let a = escaped_v(*consequent, attr, false, ctx);
            escaping_is_undone(*alternate, attr, a.1);
        },
        KindV::Logical { op, left, right } => {
            escaping_is_undone(*right, attr, ctx);
            let b = escaped_v(*right, attr, false, ctx);
            if op != LogicalOp::And {
                escaping_is_undone(*left, attr, b.1);
            }
        },
        KindV::Call { callee, args, optional } => {
            if callee.kind is Function || callee.kind is Arrow {
                function_is_undone(*callee, attr, ctx);
                assert(!is_escape(out, attr));
            } else {
                assert(is_escape(out, attr));
            }
        },
        KindV::Str(_) => {},
        KindV::Num(_) => {},
        KindV::Unary { .. } => {},
        KindV::JsxElement(element) => {
            if element.is_component {
                assert(is_escape(out, attr));
            }
        },
        _ => {
            assert(is_escape(out, attr));
        },
    }
}

proof fn function_is_undone(expr: ExprV, attr: bool, ctx: SsrContextV)
    ensures
        bared_function(escaped_function_v(expr, attr, false, ctx).0, attr) == expr,
    decreases expr, 0nat,
{
    match expr.kind {
        KindV::Function { is_async, generator, name, params, body } => {
            body_is_undone(body, body.len(), false, attr, ctx);
            let done = escaped_body_v(body, body.len(), false, attr, false, ctx).0;
            bared_body_is_each(done, done.len(), false, attr);
            assert(bared_body(done, done.len(), false, attr) =~= body);
        },
        KindV::Arrow { is_async, params, expression, body } => {
            body_is_undone(body, body.len(), expression, attr, ctx);
            let done = escaped_body_v(body, body.len(), expression, attr, false, ctx).0;
            bared_body_is_each(done, done.len(), expression, attr);
            assert(bared_body(done, done.len(), expression, attr) =~= body);
        },
        _ => {},
    }
}

proof fn body_is_undone(
    body: Seq<StmtV>,
    n: nat,
    expression: bool,
    attr: bool,
    ctx: SsrContextV,
)
    requires
        n <= body.len(),
    ensures
        escaped_body_v(body, n, expression, attr, false, ctx).0.len() == n,
        forall|i: int|
            0 <= i < n ==> bared_stmt(
                #[trigger] escaped_body_v(body, n, expression, attr, false, ctx).0[i],
                expression && i == 0,
                expression,
                attr,
            ) == body[i],
    decreases body, n,
{
    if n > 0 {
        body_is_undone(body, (n - 1) as nat, expression, attr, ctx);
        let before = escaped_body_v(body, (n - 1) as nat, expression, attr, false, ctx);
        let stmt = body[n - 1];
        match stmt {
            StmtV::Return(Some(argument)) => {
                escaping_is_undone(argument, attr, before.1);
            },
            StmtV::Expr(inner) => {
                escaping_is_undone(inner, attr, before.1);
            },
            _ => {},
        }
        let last = escaped_body_v(body, n, expression, attr, false, ctx).0[n - 1];
        assert(bared_stmt(last, expression && n == 1, expression, attr) == stmt);
    }
}

proof fn each_is_undone(exprs: Seq<ExprV>, n: nat, attr: bool, ctx: SsrContextV)
    requires
        n <= exprs.len(),
    ensures
        escaped_each_v(exprs, n, attr, false, ctx).0.len() == n,
        forall|i: int|
            0 <= i < n ==> bared(
                #[trigger] escaped_each_v(exprs, n, attr, false, ctx).0[i],
                attr,
            ) == exprs[i],
    decreases exprs, n,
{
    if n > 0 {
        each_is_undone(exprs, (n - 1) as nat, attr, ctx);
        let before = escaped_each_v(exprs, (n - 1) as nat, attr, false, ctx);
        escaping_is_undone(exprs[n - 1], attr, before.1);
    }
}

// ---------------------------------------------------------------------------
// Nothing is left unescaped
// ---------------------------------------------------------------------------

/// Whatever an expression evaluates to is escaped: a literal of the source, a
/// number, an element, a call of `escape`, or put together from such.
pub open spec fn is_safe(expr: ExprV, attr: bool) -> bool
    decreases expr, 1nat,
{
    match expr.kind {
        KindV::Str(_) => true,
        KindV::Num(_) => true,
        KindV::Unary { .. } => true,
        KindV::Template { quasis, exprs } => forall|i: int|
            0 <= i < exprs.len() ==> is_safe(#[trigger] exprs[i], attr),
        KindV::Function { .. } => is_safe_function(expr, attr),
        KindV::Arrow { .. } => is_safe_function(expr, attr),
        KindV::Binary { op, left, right } => is_safe(*left, attr) && is_safe(*right, attr),
        KindV::Conditional { test, consequent, alternate } => is_safe(*consequent, attr) && is_safe(
            *alternate,
            attr,
        ),
        KindV::Logical { op, left, right } => is_safe(*right, attr) && (op == LogicalOp::And
            || is_safe(*left, attr)),
        KindV::Call { callee, args, optional } => is_escape(expr, attr) || is_safe_function(
            *callee,
            attr,
        ),
        KindV::JsxElement(element) => !element.is_component,
        _ => false,
    }
}

/// Whatever a function returns at its top is escaped.
pub open spec fn is_safe_function(expr: ExprV, attr: bool) -> bool
    decreases expr, 0nat,
{
    match expr.kind {
        KindV::Function { is_async, generator, name, params, body } => forall|i: int|
            0 <= i < body.len() ==> is_safe_stmt(#[trigger] body[i], false, attr),
        KindV::Arrow { is_async, params, expression, body } => forall|i: int|
            0 <= i < body.len() ==> if expression {
                i == 0 ==> is_safe_stmt(#[trigger] body[i], true, attr)
            } else {
                is_safe_stmt(#[trigger] body[i], false, attr)
            },
        _ => false,
    }
}

/// What a statement gives as a result is escaped.
pub open spec fn is_safe_stmt(stmt: StmtV, value: bool, attr: bool) -> bool
    decreases stmt, 0nat,
{
    match stmt {
        StmtV::Return(Some(argument)) => value || is_safe(argument, attr),
        StmtV::Expr(inner) => value ==> is_safe(inner, attr),
        _ => true,
    }
}

/// Nothing that an escaped expression evaluates to is left unescaped.
pub proof fn an_escaped_expression_is_safe(
    expr: ExprV,
    attr: bool,
    literals: bool,
    ctx: SsrContextV,
)
    ensures
        is_safe(escaped_v(expr, attr, literals, ctx).0, attr),
    decreases expr, 1nat,
{
    let out = escaped_v(expr, attr, literals, ctx).0;
    match expr.kind {
        KindV::Template { quasis, exprs } => {
            if exprs.len() > 0 {
                each_is_safe(exprs, exprs.len(), attr, literals, ctx);
            }
        },
        KindV::Function { .. } => function_is_safe(expr, attr, literals, ctx),
        KindV::Arrow { .. } => function_is_safe(expr, attr, literals, ctx),
        KindV::Binary { op, left, right } => {
            an_escaped_expression_is_safe(*left, attr, literals, ctx);
            let a = escaped_v(*left, attr, literals, ctx);
            an_escaped_expression_is_safe(*right, attr, literals, a.1);
        },
        KindV::Conditional { test, consequent, alternate } => {
            an_escaped_expression_is_safe(*consequent, attr, literals, ctx);
            let a = escaped_v(*consequent, attr, literals, ctx);
            an_escaped_expression_is_safe(*alternate, attr, literals, a.1);
        },
        KindV::Logical { op, left, right } => {
            an_escaped_expression_is_safe(*right, attr, literals, ctx);
            let b = escaped_v(*right, attr, literals, ctx);
            if op != LogicalOp::And {
                an_escaped_expression_is_safe(*left, attr, literals, b.1);
            }
        },
        KindV::Call { callee, args, optional } => {
            if callee.kind is Function || callee.kind is Arrow {
                function_is_safe(*callee, attr, literals, ctx);
            } else {
                assert(is_escape(out, attr));
            }
        },
        KindV::Str(_) => {},
        KindV::Num(_) => {},
        KindV::Unary { .. } => {},
        KindV::JsxElement(element) => {
            if element.is_component {
                assert(is_escape(out, attr));
            }
        },
        _ => {
            assert(is_escape(out, attr));
        },
    }
}

proof fn function_is_safe(expr: ExprV, attr: bool, literals: bool, ctx: SsrContextV)
    requires
        expr.kind is Function || expr.kind is Arrow,
    ensures
        is_safe_function(escaped_function_v(expr, attr, literals, ctx).0, attr),
    decreases expr, 0nat,
{
    match expr.kind {
        KindV::Function { is_async, generator, name, params, body } => {
            body_is_safe(body, body.len(), false, attr, literals, ctx);
        },
        KindV::Arrow { is_async, params, expression, body } => {
            body_is_safe(body, body.len(), expression, attr, literals, ctx);
        },
        _ => {},
    }
}

proof fn body_is_safe(
    body: Seq<StmtV>,
    n: nat,
    expression: bool,
    attr: bool,
    literals: bool,
    ctx: SsrContextV,
)
    requires
        n <= body.len(),
    ensures
        escaped_body_v(body, n, expression, attr, literals, ctx).0.len() == n,
        forall|i: int|
            0 <= i < n ==> (expression && i > 0) || is_safe_stmt(
                #[trigger] escaped_body_v(body, n, expression, attr, literals, ctx).0[i],
                expression,
                attr,
            ),
    decreases body, n,
{
    if n > 0 {
        body_is_safe(body, (n - 1) as nat, expression, attr, literals, ctx);
        let before = escaped_body_v(body, (n - 1) as nat, expression, attr, literals, ctx);
        match body[n - 1] {
            StmtV::Return(Some(argument)) => {
                an_escaped_expression_is_safe(argument, attr, literals, before.1);
            },
            StmtV::Expr(inner) => {
                an_escaped_expression_is_safe(inner, attr, literals, before.1);
            },
            _ => {},
        }
        let last = escaped_body_v(body, n, expression, attr, literals, ctx).0[n - 1];
        assert((expression && n > 1) || is_safe_stmt(last, expression, attr));
    }
}

proof fn each_is_safe(exprs: Seq<ExprV>, n: nat, attr: bool, literals: bool, ctx: SsrContextV)
    requires
        n <= exprs.len(),
    ensures
        escaped_each_v(exprs, n, attr, literals, ctx).0.len() == n,
        forall|i: int|
            0 <= i < n ==> is_safe(
                #[trigger] escaped_each_v(exprs, n, attr, literals, ctx).0[i],
                attr,
            ),
    decreases exprs, n,
{
    if n > 0 {
        each_is_safe(exprs, (n - 1) as nat, attr, literals, ctx);
        let before = escaped_each_v(exprs, (n - 1) as nat, attr, literals, ctx);
        an_escaped_expression_is_safe(exprs[n - 1], attr, literals, before.1);
    }
}

// ---------------------------------------------------------------------------
// What each kind of expression becomes
// ---------------------------------------------------------------------------

/// A logical expression stays one of the same operator.  Its right side is
/// escaped; its left side too, except that of `&&`, which is only a test where
/// the right side is shown.
pub proof fn a_logical_expression_stays_one(
    expr: ExprV,
    attr: bool,
    literals: bool,
    ctx: SsrContextV,
)
    requires
        expr.kind is Logical,
    ensures
        ({
            let out = escaped_v(expr, attr, literals, ctx).0;
            &&& out.kind matches KindV::Logical { op, left, right } && op == expr.kind->Logical_op
                && is_safe(*right, attr) && (if op == LogicalOp::And {
                *left == *expr.kind->Logical_left
            } else {
                is_safe(*left, attr)
            })
            &&& out.span == expr.span
        }),
{
    an_escaped_expression_is_safe(expr, attr, literals, ctx);
}

/// A binary expression keeps its operator, a conditional one its test, and a
/// template its text.
pub proof fn the_rest_of_an_expression_stays(
    expr: ExprV,
    attr: bool,
    literals: bool,
    ctx: SsrContextV,
)
    ensures
        ({
            let out = escaped_v(expr, attr, literals, ctx).0;
            &&& expr.kind is Binary ==> out.kind is Binary && out.kind->Binary_op
                == expr.kind->Binary_op
            &&& expr.kind is Conditional ==> out.kind is Conditional && out.kind->test
                == expr.kind->test
            &&& expr.kind is Template && expr.kind->exprs.len() > 0 ==> out.kind is Template
                && out.kind->quasis == expr.kind->quasis
        }),
{
}

/// A string that stands for itself is escaped where literals are: it reads back,
/// and holds nothing that would end an attribute, or begin a tag.
pub proof fn a_literal_is_escaped(expr: ExprV, attr: bool, ctx: SsrContextV)
    requires
        expr.kind is Str,
    ensures
        escaped_v(expr, attr, true, ctx).0.kind matches KindV::Str(text) && unescaped(text)
            == expr.kind->Str_0 && forall|i: int|
            0 <= i < text.len() ==> !breaks_out(#[trigger] text[i], attr),
        escaped_v(expr, attr, false, ctx).0 == expr,
{
    crate::text_laws::an_escaped_text_reads_back(expr.kind->Str_0, attr);
}

/// What may be empty shows a blank instead.
pub proof fn what_may_be_empty_shows_a_blank(expr: ExprV, ctx: SsrContextV)
    ensures
        ({
            let out = spaced_v(expr, ctx).0;
            out.kind matches KindV::Logical { op, left, right } && op == LogicalOp::Or && is_text(
                *right,
                " "@,
            ) && is_safe(*left, false) && bared(*left, false) == expr
        }),
{
    escaping_is_undone(expr, false, ctx);
    an_escaped_expression_is_safe(expr, false, false, ctx);
}

} // verus!
