//! Expressions whose text is escaped when it is rendered on a server.

use crate::ast::{
    expr_value, expr_values, group_values, kind_value, no_span, nowhere, option_value, stmt_value,
    stmt_values, Expr, ExprV, Kind, KindV, LogicalOp, Stmt, StmtV,
};
use crate::copy::{
    copied_elements, copied_facts, copied_patterns, copied_quasis, copied_stmt, copied_text,
};
use crate::ir::{helper_ident_expr, helper_v};
use crate::make::{bool_v, boolean, call1, call2, call_v, logical, logical_v, str_v, string};
use crate::outside::share;
use crate::ssr::{SsrContext, SsrContextV};
use crate::text::{escape_html, escape_html_v};
use std::rc::Rc;
use vstd::prelude::*;

verus! {

/// `escape(expr)`, or `escape(expr, true)` in an attribute.
pub open spec fn escape_call_v(expr: ExprV, attr: bool, ctx: SsrContextV) -> (ExprV, SsrContextV) {
    (
        call_v(
            no_span(),
            helper_v(no_span(), "escape"@),
            if attr {
                seq![expr, bool_v(no_span(), true)]
            } else {
                seq![expr]
            },
        ),
        ctx.with_helper("escape"@),
    )
}

fn build_escape_call(expr: Rc<Expr>, attr: bool, context: &mut SsrContext) -> (call: Rc<Expr>)
    ensures
        (call@, final(context)@) == escape_call_v(expr@, attr, old(context)@),
{
    context.register_helper("escape");
    let callee = helper_ident_expr(nowhere(), "escape");
    if attr {
        call2(nowhere(), callee, expr, boolean(nowhere(), true))
    } else {
        call1(nowhere(), callee, expr)
    }
}

/// A literal: escaped here where that is wanted.
pub open spec fn literal_v(expr: ExprV, text: Seq<char>, attr: bool, literals: bool) -> ExprV {
    if literals {
        str_v(no_span(), escape_html_v(text, attr))
    } else {
        expr
    }
}

/// An expression with its text escaped: literals stay or are escaped here,
/// what an operator or a function yields is escaped where it comes from, and
/// all else is escaped when it is rendered.
pub open spec fn escaped_v(expr: ExprV, attr: bool, literals: bool, ctx: SsrContextV) -> (
    ExprV,
    SsrContextV,
)
    decreases expr, 1nat,
{
    match expr.kind {
        KindV::Str(text) => (literal_v(expr, text, attr, literals), ctx),
        KindV::Num(_) => (expr, ctx),
        KindV::Unary { .. } => (expr, ctx),
        KindV::Template { quasis, exprs } => if exprs.len() == 0 {
            (
                literal_v(
                    expr,
                    if quasis.len() > 0 {
                        quasis[0].raw
                    } else {
                        seq![]
                    },
                    attr,
                    literals,
                ),
                ctx,
            )
        } else {
            let done = escaped_each_v(exprs, exprs.len(), attr, literals, ctx);
            (ExprV { kind: KindV::Template { quasis, exprs: done.0 }, ..expr }, done.1)
        },
        KindV::Function { .. } => escaped_function_v(expr, attr, literals, ctx),
        KindV::Arrow { .. } => escaped_function_v(expr, attr, literals, ctx),
        KindV::Binary { op, left, right } => {
            let a = escaped_v(*left, attr, literals, ctx);
            let b = escaped_v(*right, attr, literals, a.1);
            (
                ExprV {
                    kind: KindV::Binary { op, left: Box::new(a.0), right: Box::new(b.0) },
                    ..expr
                },
                b.1,
            )
        },
        KindV::Conditional { test, consequent, alternate } => {
            let a = escaped_v(*consequent, attr, literals, ctx);
            let b = escaped_v(*alternate, attr, literals, a.1);
            (
                ExprV {
                    kind: KindV::Conditional {
                        test,
                        consequent: Box::new(a.0),
                        alternate: Box::new(b.0),
                    },
                    ..expr
                },
                b.1,
            )
        },
        KindV::Logical { op, left, right } => {
            let b = escaped_v(*right, attr, literals, ctx);
            let a = if op == LogicalOp::And {
                (*left, b.1)
            } else {
                escaped_v(*left, attr, literals, b.1)
            };
            (
                ExprV {
                    kind: KindV::Logical { op, left: Box::new(a.0), right: Box::new(b.0) },
                    ..expr
                },
                a.1,
            )
        },
        KindV::Call { callee, args, optional } => if callee.kind is Function
            || callee.kind is Arrow {
            let done = escaped_function_v(*callee, attr, literals, ctx);
            (
                ExprV {
                    kind: KindV::Call { callee: Box::new(done.0), args, optional },
                    ..expr
                },
                done.1,
            )
        } else {
            escape_call_v(expr, attr, ctx)
        },
        KindV::JsxElement(element) => if element.is_component {
            escape_call_v(expr, attr, ctx)
        } else {
            (expr, ctx)
        },
        _ => escape_call_v(expr, attr, ctx),
    }
}

/// A function that yields escaped text.
pub open spec fn escaped_function_v(
    expr: ExprV,
    attr: bool,
    literals: bool,
    ctx: SsrContextV,
) -> (ExprV, SsrContextV)
    decreases expr, 0nat,
{
    match expr.kind {
        KindV::Function { is_async, generator, name, params, body } => {
            let done = escaped_body_v(body, body.len(), false, attr, literals, ctx);
            (
                ExprV {
                    kind: KindV::Function { is_async, generator, name, params, body: done.0 },
                    ..expr
                },
                done.1,
            )
        },
        KindV::Arrow { is_async, params, expression, body } => {
            let done = escaped_body_v(body, body.len(), expression, attr, literals, ctx);
            (
                ExprV {
                    kind: KindV::Arrow { is_async, params, expression, body: done.0 },
                    ..expr
                },
                done.1,
            )
        },
        _ => (expr, ctx),
    }
}

/// The first `n` statements of a body: what is returned is escaped, or the
/// expression that the body is.
pub open spec fn escaped_body_v(
    body: Seq<StmtV>,
    n: nat,
    expression: bool,
    attr: bool,
    literals: bool,
    ctx: SsrContextV,
) -> (Seq<StmtV>, SsrContextV)
    decreases body, n,
{
    if n == 0 || n > body.len() {
        (seq![], ctx)
    } else {
        let before = escaped_body_v(body, (n - 1) as nat, expression, attr, literals, ctx);
        let stmt = body[n - 1];
        match stmt {
            StmtV::Return(Some(argument)) => if expression {
                (before.0.push(stmt), before.1)
            } else {
                let done = escaped_v(argument, attr, literals, before.1);
                (before.0.push(StmtV::Return(Some(done.0))), done.1)
            },
            StmtV::Expr(inner) => if expression && n == 1 {
                let done = escaped_v(inner, attr, literals, before.1);
                (before.0.push(StmtV::Expr(done.0)), done.1)
            } else {
                (before.0.push(stmt), before.1)
            },
            _ => (before.0.push(stmt), before.1),
        }
    }
}

/// The first `n` expressions of a template.
pub open spec fn escaped_each_v(
    exprs: Seq<ExprV>,
    n: nat,
    attr: bool,
    literals: bool,
    ctx: SsrContextV,
) -> (Seq<ExprV>, SsrContextV)
    decreases exprs, n,
{
    if n == 0 || n > exprs.len() {
        (seq![], ctx)
    } else {
        let before = escaped_each_v(exprs, (n - 1) as nat, attr, literals, ctx);
        let done = escaped_v(exprs[n - 1], attr, literals, before.1);
        (before.0.push(done.0), done.1)
    }
}

/// An expression with another kind.
fn rebuilt(expr: &Expr, kind: Kind) -> (made: Rc<Expr>)
    ensures
        made@ == (ExprV { kind: kind_value(kind), ..expr@ }),
{
    Rc::new(Expr { span: expr.span, facts: copied_facts(&expr.facts), kind })
}

fn literal(expr: &Rc<Expr>, text: &str, attr: bool, literals: bool) -> (made: Rc<Expr>)
    ensures
        made@ == literal_v(expr@, text@, attr, literals),
{
    if literals {
        string(nowhere(), escape_html(text, attr).as_str())
    } else {
        share(expr)
    }
}

/// An expression with its text escaped.
pub fn wrap_escape_expr_with_options(
    expr: &Rc<Expr>,
    attr: bool,
    literals: bool,
    context: &mut SsrContext,
) -> (escaped: Rc<Expr>)
    ensures
        (escaped@, final(context)@) == escaped_v(expr@, attr, literals, old(context)@),
    decreases expr, 1nat,
{
    proof {
        reveal_with_fuel(expr_value, 2);
        reveal_with_fuel(kind_value, 2);
    }
    match &expr.kind {
        Kind::Str(text) => literal(expr, text.as_str(), attr, literals),
        Kind::Num(_) => share(expr),
        Kind::Unary { .. } => share(expr),
        Kind::Template { quasis, exprs } => {
            if exprs.len() == 0 {
                if quasis.len() > 0 {
                    literal(expr, quasis[0].raw.as_str(), attr, literals)
                } else {
                    proof {
                        reveal_strlit("");
                        assert(""@ =~= seq![]);
                    }
                    literal(expr, "", attr, literals)
                }
            } else {
                let done = escape_each(exprs, attr, literals, context);
                let kind = Kind::Template { quasis: copied_quasis(quasis), exprs: done };
                rebuilt(expr, kind)
            }
        },
        Kind::Function { .. } => escape_function(expr, attr, literals, context),
        Kind::Arrow { .. } => escape_function(expr, attr, literals, context),
        Kind::Binary { op, left, right } => {
            let a = wrap_escape_expr_with_options(left, attr, literals, context);
            let b = wrap_escape_expr_with_options(right, attr, literals, context);
            rebuilt(expr, Kind::Binary { op: *op, left: a, right: b })
        },
        Kind::Conditional { test, consequent, alternate } => {
            let a = wrap_escape_expr_with_options(consequent, attr, literals, context);
            let b = wrap_escape_expr_with_options(alternate, attr, literals, context);
            rebuilt(
                expr,
                Kind::Conditional { test: share(test), consequent: a, alternate: b },
            )
        },
        Kind::Logical { op, left, right } => {
            let b = wrap_escape_expr_with_options(right, attr, literals, context);
            let a = if *op == LogicalOp::And {
                share(left)
            } else {
                wrap_escape_expr_with_options(left, attr, literals, context)
            };
            rebuilt(expr, Kind::Logical { op: *op, left: a, right: b })
        },
        Kind::Call { callee, args, optional } => {
            let in_place = match &callee.kind {
                Kind::Function { .. } => true,
                Kind::Arrow { .. } => true,
                _ => false,
            };
            if in_place {
                let done = escape_function(callee, attr, literals, context);
                let kind = Kind::Call {
                    callee: done,
                    args: copied_elements(args),
                    optional: *optional,
                };
                rebuilt(expr, kind)
            } else {
                build_escape_call(share(expr), attr, context)
            }
        },
        Kind::JsxElement(element) => {
            if element.is_component {
                build_escape_call(share(expr), attr, context)
            } else {
                share(expr)
            }
        },
        _ => build_escape_call(share(expr), attr, context),
    }
}

/// A function that yields escaped text.
fn escape_function(expr: &Rc<Expr>, attr: bool, literals: bool, context: &mut SsrContext) -> (escaped:
    Rc<Expr>)
    ensures
        (escaped@, final(context)@) == escaped_function_v(
            expr@,
            attr,
            literals,
            old(context)@,
        ),
    decreases expr, 0nat,
{
    proof {
        reveal_with_fuel(expr_value, 2);
        reveal_with_fuel(kind_value, 2);
    }
    match &expr.kind {
        Kind::Function { is_async, generator, name, params, body } => {
            let done = escape_body(body, false, attr, literals, context);
            let kind = Kind::Function {
                is_async: *is_async,
                generator: *generator,
                name: copied_text(name),
                params: copied_patterns(params),
                body: done,
            };
            rebuilt(expr, kind)
        },
        Kind::Arrow { is_async, params, expression, body } => {
            let done = escape_body(body, *expression, attr, literals, context);
            let kind = Kind::Arrow {
                is_async: *is_async,
                params: copied_patterns(params),
                expression: *expression,
                body: done,
            };
            rebuilt(expr, kind)
        },
        _ => share(expr),
    }
}

/// A body that yields escaped text.
fn escape_body(
    body: &Vec<Stmt>,
    expression: bool,
    attr: bool,
    literals: bool,
    context: &mut SsrContext,
) -> (escaped: Vec<Stmt>)
    ensures
        (stmt_values(escaped@), final(context)@) == escaped_body_v(
            stmt_values(body@),
            body@.len(),
            expression,
            attr,
            literals,
            old(context)@,
        ),
    decreases body, body.len(),
{
    broadcast use group_values;

    let mut escaped: Vec<Stmt> = Vec::new();
    let mut i: usize = 0;
    proof {
        assert(stmt_values(escaped@) =~= seq![]);
    }
    while i < body.len()
        invariant
            i <= body.len(),
            (stmt_values(escaped@), context@) == escaped_body_v(
                stmt_values(body@),
                i as nat,
                expression,
                attr,
                literals,
                old(context)@,
            ),
        decreases body.len() - i,
    {
        proof {
            reveal_with_fuel(stmt_value, 2);
            assert(stmt_values(body@)[i as int] == body@[i as int]@);
            if let Stmt::Return(argument) = &body@[i as int] {
                assert(body@[i as int]@ == StmtV::Return(option_value(*argument)));
            }
        }
        let stmt = match &body[i] {
            Stmt::Return(Some(argument)) => {
                if expression {
                    copied_stmt(&body[i])
                } else {
                    let done = wrap_escape_expr_with_options(argument, attr, literals, context);
                    let stmt = Stmt::Return(Some(done));
                    proof {
                        assert(option_value(stmt->Return_0) == Some(done@));
                        assert(stmt@ == StmtV::Return(Some(done@)));
                    }
                    stmt
                }
            },
            Stmt::Expr(inner) => {
                if expression && i == 0 {
                    let done = wrap_escape_expr_with_options(inner, attr, literals, context);
                    let stmt = Stmt::Expr(done);
                    proof {
                        assert(stmt@ == StmtV::Expr(done@));
                    }
                    stmt
                } else {
                    copied_stmt(&body[i])
                }
            },
            _ => copied_stmt(&body[i]),
        };
        escaped.push(stmt);
        i = i + 1;
    }
    escaped
}

/// Expressions with their texts escaped.
fn escape_each(
    exprs: &Vec<Rc<Expr>>,
    attr: bool,
    literals: bool,
    context: &mut SsrContext,
) -> (escaped: Vec<Rc<Expr>>)
    ensures
        (expr_values(escaped@), final(context)@) == escaped_each_v(
            expr_values(exprs@),
            exprs@.len(),
            attr,
            literals,
            old(context)@,
        ),
    decreases exprs, exprs.len(),
{
    broadcast use group_values;

    let mut escaped: Vec<Rc<Expr>> = Vec::new();
    let mut i: usize = 0;
    proof {
        assert(expr_values(escaped@) =~= seq![]);
    }
    while i < exprs.len()
        invariant
            i <= exprs.len(),
            (expr_values(escaped@), context@) == escaped_each_v(
                expr_values(exprs@),
                i as nat,
                attr,
                literals,
                old(context)@,
            ),
        decreases exprs.len() - i,
    {
        let done = wrap_escape_expr_with_options(&exprs[i], attr, literals, context);
        escaped.push(done);
        i = i + 1;
    }
    escaped
}

/// An expression with its text escaped; literals stay as they are.
pub fn wrap_escape_expr(expr: &Rc<Expr>, attr: bool, context: &mut SsrContext) -> (escaped: Rc<Expr>)
    ensures
        (escaped@, final(context)@) == escaped_v(expr@, attr, false, old(context)@),
{
    wrap_escape_expr_with_options(expr, attr, false, context)
}

/// Escaped text, or a space where there is none.
pub open spec fn spaced_v(expr: ExprV, ctx: SsrContextV) -> (ExprV, SsrContextV) {
    let escaped = escaped_v(expr, false, false, ctx);
    (
        logical_v(no_span(), escaped.0, LogicalOp::Or, str_v(no_span(), " "@)),
        escaped.1,
    )
}

/// Escaped text, or a space where there is none.
pub fn wrap_escape_text_with_space_fallback(expr: &Rc<Expr>, context: &mut SsrContext) -> (escaped:
    Rc<Expr>)
    ensures
        (escaped@, final(context)@) == spaced_v(expr@, old(context)@),
{
    let escaped = wrap_escape_expr(expr, false, context);
    logical(nowhere(), escaped, LogicalOp::Or, string(nowhere(), " "))
}

} // verus!
