//! Makers of syntax trees, each with the value that it makes.

use crate::ast::{
    element_value, element_values, expr_value, expr_values, group_values, kind_value,
    pattern_values, prop_values, quasi_values, stmt_value, stmt_values, AssignOp, BinaryOp,
    Element, ElementV, Expr, ExprV, Facts, Kind, KindV, LogicalOp, Pattern, PatternV, Prop, PropV,
    Quasi, Span, Stmt, StmtV, UnaryOp,
};
use crate::outside::share;
use std::rc::Rc;
use vstd::prelude::*;

verus! {

broadcast use group_values;

/// Nothing is known of a node that a transform makes.
pub open spec fn no_facts() -> Facts {
    Facts { dynamic: false, static_text: None, condition: None }
}

pub open spec fn node_v(span: Span, kind: KindV) -> ExprV {
    ExprV { span, facts: no_facts(), kind }
}

pub open spec fn ident_v(span: Span, name: Seq<char>) -> ExprV {
    node_v(span, KindV::Ident { name, symbol: None })
}

pub open spec fn str_v(span: Span, text: Seq<char>) -> ExprV {
    node_v(span, KindV::Str(text))
}

pub open spec fn bool_v(span: Span, value: bool) -> ExprV {
    node_v(span, KindV::Bool(value))
}

pub open spec fn null_v(span: Span) -> ExprV {
    node_v(span, KindV::Null)
}

pub open spec fn member_v(span: Span, object: ExprV, property: Seq<char>) -> ExprV {
    node_v(span, KindV::Member { object: Box::new(object), property, optional: false })
}

/// The arguments of a call without spreads.
pub open spec fn args_v(args: Seq<ExprV>) -> Seq<ElementV> {
    args.map_values(|e: ExprV| ElementV::Expr(e))
}

pub open spec fn call_v(span: Span, callee: ExprV, args: Seq<ExprV>) -> ExprV {
    node_v(span, KindV::Call { callee: Box::new(callee), args: args_v(args), optional: false })
}

pub open spec fn array_v(span: Span, items: Seq<ExprV>) -> ExprV {
    node_v(span, KindV::Array(args_v(items)))
}

pub open spec fn sequence_v(span: Span, items: Seq<ExprV>) -> ExprV {
    node_v(span, KindV::Sequence(items))
}

pub open spec fn object_v(span: Span, props: Seq<PropV>) -> ExprV {
    node_v(span, KindV::Object(props))
}

pub open spec fn arrow_v(
    span: Span,
    params: Seq<PatternV>,
    expression: bool,
    body: Seq<StmtV>,
) -> ExprV {
    node_v(span, KindV::Arrow { is_async: false, params, expression, body })
}

/// `() => expr`.
pub open spec fn thunk_v(span: Span, expr: ExprV) -> ExprV {
    arrow_v(span, Seq::empty(), true, seq![StmtV::Expr(expr)])
}

/// `param => expr`.
pub open spec fn arrow1_v(span: Span, param: Seq<char>, expr: ExprV) -> ExprV {
    arrow_v(span, seq![PatternV::Ident(param)], true, seq![StmtV::Expr(expr)])
}

/// `param => { expr; }`.
pub open spec fn arrow1_stmt_v(span: Span, param: Seq<char>, expr: ExprV) -> ExprV {
    arrow_v(span, seq![PatternV::Ident(param)], false, seq![StmtV::Expr(expr)])
}

pub open spec fn assign_v(span: Span, target: ExprV, value: ExprV) -> ExprV {
    node_v(
        span,
        KindV::Assign { op: AssignOp::Assign, target: Box::new(target), value: Box::new(value) },
    )
}

pub open spec fn unary_v(span: Span, op: UnaryOp, argument: ExprV) -> ExprV {
    node_v(span, KindV::Unary { op, argument: Box::new(argument) })
}

/// `!!expr`.
pub open spec fn bool_cast_v(span: Span, expr: ExprV) -> ExprV {
    unary_v(span, UnaryOp::Not, unary_v(span, UnaryOp::Not, expr))
}

pub open spec fn binary_v(span: Span, left: ExprV, op: BinaryOp, right: ExprV) -> ExprV {
    node_v(span, KindV::Binary { op, left: Box::new(left), right: Box::new(right) })
}

pub open spec fn logical_v(span: Span, left: ExprV, op: LogicalOp, right: ExprV) -> ExprV {
    node_v(span, KindV::Logical { op, left: Box::new(left), right: Box::new(right) })
}

pub open spec fn conditional_v(
    span: Span,
    test: ExprV,
    consequent: ExprV,
    alternate: ExprV,
) -> ExprV {
    node_v(
        span,
        KindV::Conditional {
            test: Box::new(test),
            consequent: Box::new(consequent),
            alternate: Box::new(alternate),
        },
    )
}

/// `(object?.property)` as one chain.
pub open spec fn optional_member_v(span: Span, object: ExprV, property: Seq<char>) -> ExprV {
    node_v(
        span,
        KindV::Chain(
            Box::new(
                node_v(
                    span,
                    KindV::Member { object: Box::new(object), property, optional: true },
                ),
            ),
        ),
    )
}

/// `expr` with another span.
pub open spec fn with_span_v(expr: ExprV, span: Span) -> ExprV {
    ExprV { span, ..expr }
}

/// Nothing is known of a node that a transform makes.
pub fn unknown() -> (facts: Facts)
    ensures
        facts == no_facts(),
{
    Facts { dynamic: false, static_text: None, condition: None }
}

fn node(span: Span, kind: Kind) -> (expr: Rc<Expr>)
    ensures
        expr@ == node_v(span, kind_value(kind)),
{
    Rc::new(Expr { span, facts: unknown(), kind })
}

/// A copy of a string.
pub fn copied(text: &str) -> (copy: String)
    ensures
        copy@ == text@,
{
    text.to_string()
}

pub fn ident(span: Span, name: &str) -> (expr: Rc<Expr>)
    ensures
        expr@ == ident_v(span, name@),
{
    node(span, Kind::Ident { name: copied(name), symbol: None })
}

pub fn string(span: Span, text: &str) -> (expr: Rc<Expr>)
    ensures
        expr@ == str_v(span, text@),
{
    node(span, Kind::Str(copied(text)))
}

pub fn boolean(span: Span, value: bool) -> (expr: Rc<Expr>)
    ensures
        expr@ == bool_v(span, value),
{
    node(span, Kind::Bool(value))
}

pub fn null(span: Span) -> (expr: Rc<Expr>)
    ensures
        expr@ == null_v(span),
{
    node(span, Kind::Null)
}

pub fn member(span: Span, object: Rc<Expr>, property: &str) -> (expr: Rc<Expr>)
    ensures
        expr@ == member_v(span, object@, property@),
{
    node(span, Kind::Member { object, property: copied(property), optional: false })
}

pub fn optional_member(span: Span, object: Rc<Expr>, property: &str) -> (expr: Rc<Expr>)
    ensures
        expr@ == optional_member_v(span, object@, property@),
{
    let inner = node(span, Kind::Member { object, property: copied(property), optional: true });
    node(span, Kind::Chain(inner))
}

fn elements(args: Vec<Rc<Expr>>) -> (items: Vec<Element>)
    ensures
        element_values(items@) == args_v(expr_values(args@)),
{
    let mut items: Vec<Element> = Vec::new();
    let mut i: usize = 0;
    while i < args.len()
        invariant
            i <= args.len(),
            items@.len() == i,
            forall|k: int| 0 <= k < i ==> items@[k] == Element::Expr(args@[k]),
        decreases args.len() - i,
    {
        items.push(Element::Expr(share(&args[i])));
        i = i + 1;
    }
    proof {
        assert forall|k: int| 0 <= k < items@.len() implies element_values(items@)[k]
            == args_v(expr_values(args@))[k] by {
            assert(element_value(items@[k]) == ElementV::Expr(expr_value(*args@[k])));
        }
        assert(element_values(items@) =~= args_v(expr_values(args@)));
    }
    items
}

pub fn call(span: Span, callee: Rc<Expr>, args: Vec<Rc<Expr>>) -> (expr: Rc<Expr>)
    ensures
        expr@ == call_v(span, callee@, expr_values(args@)),
{
    node(span, Kind::Call { callee, args: elements(args), optional: false })
}

pub fn call0(span: Span, callee: Rc<Expr>) -> (expr: Rc<Expr>)
    ensures
        expr@ == call_v(span, callee@, seq![]),
{
    let args: Vec<Rc<Expr>> = Vec::new();
    proof {
        assert(expr_values(args@) =~= Seq::<ExprV>::empty());
    }
    call(span, callee, args)
}

pub fn call1(span: Span, callee: Rc<Expr>, a: Rc<Expr>) -> (expr: Rc<Expr>)
    ensures
        expr@ == call_v(span, callee@, seq![a@]),
{
    let mut args: Vec<Rc<Expr>> = Vec::new();
    args.push(a);
    proof {
        assert(expr_values(args@) =~= seq![a@]);
    }
    call(span, callee, args)
}

pub fn call2(span: Span, callee: Rc<Expr>, a: Rc<Expr>, b: Rc<Expr>) -> (expr: Rc<Expr>)
    ensures
        expr@ == call_v(span, callee@, seq![a@, b@]),
{
    let mut args: Vec<Rc<Expr>> = Vec::new();
    args.push(a);
    args.push(b);
    proof {
        assert(expr_values(args@) =~= seq![a@, b@]);
    }
    call(span, callee, args)
}

pub fn call3(span: Span, callee: Rc<Expr>, a: Rc<Expr>, b: Rc<Expr>, c: Rc<Expr>) -> (expr: Rc<
    Expr,
>)
    ensures
        expr@ == call_v(span, callee@, seq![a@, b@, c@]),
{
    let mut args: Vec<Rc<Expr>> = Vec::new();
    args.push(a);
    args.push(b);
    args.push(c);
    proof {
        assert(expr_values(args@) =~= seq![a@, b@, c@]);
    }
    call(span, callee, args)
}

pub fn call4(
    span: Span,
    callee: Rc<Expr>,
    a: Rc<Expr>,
    b: Rc<Expr>,
    c: Rc<Expr>,
    d: Rc<Expr>,
) -> (expr: Rc<Expr>)
    ensures
        expr@ == call_v(span, callee@, seq![a@, b@, c@, d@]),
{
    let mut args: Vec<Rc<Expr>> = Vec::new();
    args.push(a);
    args.push(b);
    args.push(c);
    args.push(d);
    proof {
        assert(expr_values(args@) =~= seq![a@, b@, c@, d@]);
    }
    call(span, callee, args)
}

pub fn array(span: Span, items: Vec<Rc<Expr>>) -> (expr: Rc<Expr>)
    ensures
        expr@ == array_v(span, expr_values(items@)),
{
    node(span, Kind::Array(elements(items)))
}

pub fn sequence(span: Span, items: Vec<Rc<Expr>>) -> (expr: Rc<Expr>)
    ensures
        expr@ == sequence_v(span, expr_values(items@)),
{
    node(span, Kind::Sequence(items))
}

pub fn object(span: Span, props: Vec<Prop>) -> (expr: Rc<Expr>)
    ensures
        expr@ == object_v(span, prop_values(props@)),
{
    node(span, Kind::Object(props))
}

pub fn empty_object(span: Span) -> (expr: Rc<Expr>)
    ensures
        expr@ == object_v(span, seq![]),
{
    let props: Vec<Prop> = Vec::new();
    proof {
        assert(prop_values(props@) =~= Seq::<PropV>::empty());
    }
    object(span, props)
}

pub fn arrow(span: Span, params: Vec<Pattern>, expression: bool, body: Vec<Stmt>) -> (expr: Rc<
    Expr,
>)
    ensures
        expr@ == arrow_v(span, pattern_values(params@), expression, stmt_values(body@)),
{
    node(span, Kind::Arrow { is_async: false, params, expression, body })
}

fn one_stmt(expr: Rc<Expr>) -> (body: Vec<Stmt>)
    ensures
        stmt_values(body@) == seq![StmtV::Expr(expr@)],
{
    let mut body: Vec<Stmt> = Vec::new();
    body.push(Stmt::Expr(expr));
    proof {
        assert(stmt_value(body@[0]) == StmtV::Expr(expr@));
        assert(stmt_values(body@) =~= seq![StmtV::Expr(expr@)]);
    }
    body
}

fn one_param(name: &str) -> (params: Vec<Pattern>)
    ensures
        pattern_values(params@) == seq![PatternV::Ident(name@)],
{
    let mut params: Vec<Pattern> = Vec::new();
    params.push(Pattern::Ident(copied(name)));
    proof {
        assert(pattern_values(params@) =~= seq![PatternV::Ident(name@)]);
    }
    params
}

/// `() => expr`.
pub fn thunk(span: Span, expr: Rc<Expr>) -> (made: Rc<Expr>)
    ensures
        made@ == thunk_v(span, expr@),
{
    let params: Vec<Pattern> = Vec::new();
    proof {
        assert(pattern_values(params@) =~= Seq::<PatternV>::empty());
    }
    arrow(span, params, true, one_stmt(expr))
}

/// `param => expr`.
pub fn arrow1(span: Span, param: &str, expr: Rc<Expr>) -> (made: Rc<Expr>)
    ensures
        made@ == arrow1_v(span, param@, expr@),
{
    arrow(span, one_param(param), true, one_stmt(expr))
}

/// `param => { expr; }`.
pub fn arrow1_stmt(span: Span, param: &str, expr: Rc<Expr>) -> (made: Rc<Expr>)
    ensures
        made@ == arrow1_stmt_v(span, param@, expr@),
{
    arrow(span, one_param(param), false, one_stmt(expr))
}

pub fn assign(span: Span, target: Rc<Expr>, value: Rc<Expr>) -> (expr: Rc<Expr>)
    ensures
        expr@ == assign_v(span, target@, value@),
{
    node(span, Kind::Assign { op: AssignOp::Assign, target, value })
}

pub fn unary(span: Span, op: UnaryOp, argument: Rc<Expr>) -> (expr: Rc<Expr>)
    ensures
        expr@ == unary_v(span, op, argument@),
{
    node(span, Kind::Unary { op, argument })
}

/// `!!expr`.
pub fn bool_cast(span: Span, expr: Rc<Expr>) -> (cast: Rc<Expr>)
    ensures
        cast@ == bool_cast_v(span, expr@),
{
    unary(span, UnaryOp::Not, unary(span, UnaryOp::Not, expr))
}

pub fn binary(span: Span, left: Rc<Expr>, op: BinaryOp, right: Rc<Expr>) -> (expr: Rc<Expr>)
    ensures
        expr@ == binary_v(span, left@, op, right@),
{
    node(span, Kind::Binary { op, left, right })
}

pub fn logical(span: Span, left: Rc<Expr>, op: LogicalOp, right: Rc<Expr>) -> (expr: Rc<Expr>)
    ensures
        expr@ == logical_v(span, left@, op, right@),
{
    node(span, Kind::Logical { op, left, right })
}

pub fn conditional(span: Span, test: Rc<Expr>, consequent: Rc<Expr>, alternate: Rc<Expr>) -> (expr:
    Rc<Expr>)
    ensures
        expr@ == conditional_v(span, test@, consequent@, alternate@),
{
    node(span, Kind::Conditional { test, consequent, alternate })
}

pub fn template(span: Span, quasis: Vec<Quasi>, exprs: Vec<Rc<Expr>>) -> (expr: Rc<Expr>)
    ensures
        expr@ == node_v(
            span,
            KindV::Template { quasis: quasi_values(quasis@), exprs: expr_values(exprs@) },
        ),
{
    node(span, Kind::Template { quasis, exprs })
}

} // verus!
