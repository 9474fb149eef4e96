//! JSX that was left for later.
//!
//! JSX in an attribute is left where it stands until the element that it
//! belongs to is put out; what is put out is then gone through, and each JSX
//! that is met on the way is replaced by what it is put out as.

use crate::ast::{
    declarator_values, element_value, element_values, expr_value, expr_values, group_values,
    key_value, kind_value, option_value, prop_value, prop_values, stmt_value, stmt_values,
    Declarator, DeclaratorV, Element, ElementV, Expr, ExprV, Key, KeyV, Kind, KindV, Prop, PropV,
    Stmt, StmtV,
};
use crate::capture::declarator_v;
use crate::copy::{
    copied_facts, copied_key, copied_kind, copied_pattern, copied_patterns, copied_quasis,
    copied_text,
};
use crate::outside::share;
use std::rc::Rc;
use vstd::prelude::*;

verus! {

broadcast use group_values;

// ---------------------------------------------------------------------------
// The first JSX
// ---------------------------------------------------------------------------

/// Puts `by` in the place of the first JSX, unless `st` says that it is found;
/// gives what was found.
pub open spec fn expr_s(expr: ExprV, by: ExprV, st: Option<ExprV>) -> (ExprV, Option<ExprV>)
    decreases expr, 1nat,
{
    if st is Some {
        (expr, st)
    } else if expr.kind is JsxElement || expr.kind is JsxFragment {
        (by, Some(expr))
    } else {
        let (kind, st) = kind_s(expr.kind, by, st);
        (ExprV { kind, ..expr }, st)
    }
}

/// In an expression of this kind.
pub open spec fn kind_s(kind: KindV, by: ExprV, st: Option<ExprV>) -> (KindV, Option<ExprV>)
    decreases kind, 0nat,
{
    match kind {
        KindV::Template { quasis, exprs } => {
            let (exprs, st) = exprs_s(exprs, exprs.len(), by, st);
            (KindV::Template { quasis, exprs }, st)
        },
        KindV::Array(items) => {
            let (items, st) = elements_s(items, items.len(), by, st);
            (KindV::Array(items), st)
        },
        KindV::Object(props) => {
            let (props, st) = props_s(props, props.len(), by, st);
            (KindV::Object(props), st)
        },
        KindV::Member { object, property, optional } => {
            let (object, st) = expr_s(*object, by, st);
            (KindV::Member { object: Box::new(object), property, optional }, st)
        },
        KindV::Index { object, index, optional } => {
            let (object, st) = expr_s(*object, by, st);
            let (index, st) = expr_s(*index, by, st);
            (KindV::Index { object: Box::new(object), index: Box::new(index), optional }, st)
        },
        KindV::PrivateMember { object, field } => {
            let (object, st) = expr_s(*object, by, st);
            (KindV::PrivateMember { object: Box::new(object), field }, st)
        },
        KindV::Call { callee, args, optional } => {
            let (callee, st) = expr_s(*callee, by, st);
            let (args, st) = elements_s(args, args.len(), by, st);
            (KindV::Call { callee: Box::new(callee), args, optional }, st)
        },
        KindV::Arrow { is_async, params, expression, body } => {
            let (body, st) = stmts_s(body, body.len(), by, st);
            (KindV::Arrow { is_async, params, expression, body }, st)
        },
        KindV::Function { is_async, generator, name, params, body } => {
            let (body, st) = stmts_s(body, body.len(), by, st);
            (KindV::Function { is_async, generator, name, params, body }, st)
        },
        KindV::Assign { op, target, value } => {
            let (target, st) = expr_s(*target, by, st);
            let (value, st) = expr_s(*value, by, st);
            (KindV::Assign { op, target: Box::new(target), value: Box::new(value) }, st)
        },
        KindV::Unary { op, argument } => {
            let (argument, st) = expr_s(*argument, by, st);
            (KindV::Unary { op, argument: Box::new(argument) }, st)
        },
        KindV::Binary { op, left, right } => {
            let (left, st) = expr_s(*left, by, st);
            let (right, st) = expr_s(*right, by, st);
            (KindV::Binary { op, left: Box::new(left), right: Box::new(right) }, st)
        },
        KindV::Logical { op, left, right } => {
            let (left, st) = expr_s(*left, by, st);
            let (right, st) = expr_s(*right, by, st);
            (KindV::Logical { op, left: Box::new(left), right: Box::new(right) }, st)
        },
        KindV::Conditional { test, consequent, alternate } => {
            let (test, st) = expr_s(*test, by, st);
            let (consequent, st) = expr_s(*consequent, by, st);
            let (alternate, st) = expr_s(*alternate, by, st);
            (
                KindV::Conditional {
                    test: Box::new(test),
                    consequent: Box::new(consequent),
                    alternate: Box::new(alternate),
                },
                st,
            )
        },
        KindV::Sequence(items) => {
            let (items, st) = exprs_s(items, items.len(), by, st);
            (KindV::Sequence(items), st)
        },
        KindV::Paren(inner) => {
            let (inner, st) = expr_s(*inner, by, st);
            (KindV::Paren(Box::new(inner)), st)
        },
        KindV::Chain(inner) => {
            let (inner, st) = expr_s(*inner, by, st);
            (KindV::Chain(Box::new(inner)), st)
        },
        KindV::Typed { wrapper, expr } => {
            let (expr, st) = expr_s(*expr, by, st);
            (KindV::Typed { wrapper, expr: Box::new(expr) }, st)
        },
        _ => (kind, st),
    }
}

/// In an element or an argument.
pub open spec fn element_s(item: ElementV, by: ExprV, st: Option<ExprV>) -> (
    ElementV,
    Option<ExprV>,
)
    decreases item, 0nat,
{
    match item {
        ElementV::Expr(expr) => {
            let (expr, st) = expr_s(expr, by, st);
            (ElementV::Expr(expr), st)
        },
        ElementV::Spread(expr) => {
            let (expr, st) = expr_s(expr, by, st);
            (ElementV::Spread(expr), st)
        },
        ElementV::Hole => (ElementV::Hole, st),
    }
}

/// In a key.
pub open spec fn key_s(key: KeyV, by: ExprV, st: Option<ExprV>) -> (KeyV, Option<ExprV>)
    decreases key, 0nat,
{
    match key {
        KeyV::Expr(expr) => {
            let (expr, st) = expr_s(expr, by, st);
            (KeyV::Expr(expr), st)
        },
        _ => (key, st),
    }
}

/// In a property.
pub open spec fn prop_s(prop: PropV, by: ExprV, st: Option<ExprV>) -> (PropV, Option<ExprV>)
    decreases prop, 0nat,
{
    match prop {
        PropV::Named { span, kind, key, value, method, shorthand, computed } => {
            let (key, st) = key_s(key, by, st);
            let (value, st) = expr_s(value, by, st);
            (PropV::Named { span, kind, key, value, method, shorthand, computed }, st)
        },
        PropV::Spread { span, argument } => {
            let (argument, st) = expr_s(argument, by, st);
            (PropV::Spread { span, argument }, st)
        },
    }
}

/// In an optional expression.
pub open spec fn option_s(expr: Option<ExprV>, by: ExprV, st: Option<ExprV>) -> (
    Option<ExprV>,
    Option<ExprV>,
)
    decreases expr, 0nat,
{
    match expr {
        None => (None, st),
        Some(expr) => {
            let (expr, st) = expr_s(expr, by, st);
            (Some(expr), st)
        },
    }
}

/// In a declarator.
pub open spec fn declarator_s(item: DeclaratorV, by: ExprV, st: Option<ExprV>) -> (
    DeclaratorV,
    Option<ExprV>,
)
    decreases item, 0nat,
{
    let (init, st) = option_s(item.init, by, st);
    (DeclaratorV { init, ..item }, st)
}

/// In a statement.
pub open spec fn stmt_s(stmt: StmtV, by: ExprV, st: Option<ExprV>) -> (StmtV, Option<ExprV>)
    decreases stmt, 0nat,
{
    match stmt {
        StmtV::Expr(expr) => {
            let (expr, st) = expr_s(expr, by, st);
            (StmtV::Expr(expr), st)
        },
        StmtV::Return(expr) => {
            let (expr, st) = option_s(expr, by, st);
            (StmtV::Return(expr), st)
        },
        StmtV::Var { kind, declarators } => {
            let (declarators, st) = declarators_s(declarators, declarators.len(), by, st);
            (StmtV::Var { kind, declarators }, st)
        },
        StmtV::Block(body) => {
            let (body, st) = stmts_s(body, body.len(), by, st);
            (StmtV::Block(body), st)
        },
        StmtV::If { test, consequent, alternate } => {
            let (test, st) = expr_s(test, by, st);
            let (consequent, st) = stmt_s(*consequent, by, st);
            let (alternate, st) = match alternate {
                None => (None, st),
                Some(alternate) => {
                    let (alternate, st) = stmt_s(*alternate, by, st);
                    (Some(Box::new(alternate)), st)
                },
            };
            (StmtV::If { test, consequent: Box::new(consequent), alternate }, st)
        },
        StmtV::Function { name, function, body } => {
            let (body, st) = stmts_s(body, body.len(), by, st);
            (StmtV::Function { name, function, body }, st)
        },
        StmtV::Opaque(id) => (stmt, st),
    }
}

/// In the first `n` expressions.
pub open spec fn exprs_s(items: Seq<ExprV>, n: nat, by: ExprV, st: Option<ExprV>) -> (
    Seq<ExprV>,
    Option<ExprV>,
)
    decreases items, n,
{
    if n == 0 || n > items.len() {
        (Seq::empty(), st)
    } else {
        let (before, st) = exprs_s(items, (n - 1) as nat, by, st);
        let (item, st) = expr_s(items[n - 1], by, st);
        (before.push(item), st)
    }
}

/// In the first `n` elements.
pub open spec fn elements_s(items: Seq<ElementV>, n: nat, by: ExprV, st: Option<ExprV>) -> (
    Seq<ElementV>,
    Option<ExprV>,
)
    decreases items, n,
{
    if n == 0 || n > items.len() {
        (Seq::empty(), st)
    } else {
        let (before, st) = elements_s(items, (n - 1) as nat, by, st);
        let (item, st) = element_s(items[n - 1], by, st);
        (before.push(item), st)
    }
}

/// In the first `n` properties.
pub open spec fn props_s(items: Seq<PropV>, n: nat, by: ExprV, st: Option<ExprV>) -> (
    Seq<PropV>,
    Option<ExprV>,
)
    decreases items, n,
{
    if n == 0 || n > items.len() {
        (Seq::empty(), st)
    } else {
        let (before, st) = props_s(items, (n - 1) as nat, by, st);
        let (item, st) = prop_s(items[n - 1], by, st);
        (before.push(item), st)
    }
}

/// In the first `n` declarators.
pub open spec fn declarators_s(items: Seq<DeclaratorV>, n: nat, by: ExprV, st: Option<ExprV>) -> (
    Seq<DeclaratorV>,
    Option<ExprV>,
)
    decreases items, n,
{
    if n == 0 || n > items.len() {
        (Seq::empty(), st)
    } else {
        let (before, st) = declarators_s(items, (n - 1) as nat, by, st);
        let (item, st) = declarator_s(items[n - 1], by, st);
        (before.push(item), st)
    }
}

/// In the first `n` statements.
pub open spec fn stmts_s(items: Seq<StmtV>, n: nat, by: ExprV, st: Option<ExprV>) -> (
    Seq<StmtV>,
    Option<ExprV>,
)
    decreases items, n,
{
    if n == 0 || n > items.len() {
        (Seq::empty(), st)
    } else {
        let (before, st) = stmts_s(items, (n - 1) as nat, by, st);
        let (item, st) = stmt_s(items[n - 1], by, st);
        (before.push(item), st)
    }
}

// ---------------------------------------------------------------------------
// Code
// ---------------------------------------------------------------------------

/// Puts `by` in the place of the first JSX, unless it is found already.
pub fn swap_expr(expr: &Rc<Expr>, by: &Rc<Expr>, st: &mut Option<Rc<Expr>>) -> (done: Rc<Expr>)
    ensures
        (expr_value(*done), option_value(*final(st))) == expr_s(
            expr_value(**expr),
            expr_value(**by),
            option_value(*old(st)),
        ),
    decreases **expr, 0nat,
{
    if st.is_some() {
        return share(expr);
    }
    let is_jsx = match &expr.kind {
        Kind::JsxElement(_) => true,
        Kind::JsxFragment(_) => true,
        _ => false,
    };
    if is_jsx {
        *st = Some(share(expr));
        return share(by);
    }
    let kind = swap_kind(&expr.kind, by, st);
    Rc::new(Expr { span: expr.span, facts: copied_facts(&expr.facts), kind })
}

#[verifier::rlimit(60)]
fn swap_kind(kind: &Kind, by: &Rc<Expr>, st: &mut Option<Rc<Expr>>) -> (done: Kind)
    ensures
        (kind_value(done), option_value(*final(st))) == kind_s(
            kind_value(*kind),
            expr_value(**by),
            option_value(*old(st)),
        ),
    decreases *kind, 0nat,
{
    match kind {
        Kind::Template { quasis, exprs } => {
            let exprs = swap_exprs(exprs, by, st);
            Kind::Template { quasis: copied_quasis(quasis), exprs }
        },
        Kind::Array(items) => {
            let items = swap_elements(items, by, st);
            Kind::Array(items)
        },
        Kind::Object(props) => {
            let props = swap_props(props, by, st);
            Kind::Object(props)
        },
        Kind::Member { object, property, optional } => {
            let object = swap_expr(object, by, st);
            Kind::Member { object, property: property.clone(), optional: *optional }
        },
        Kind::Index { object, index, optional } => {
            let object = swap_expr(object, by, st);
            let index = swap_expr(index, by, st);
            Kind::Index { object, index, optional: *optional }
        },
        Kind::PrivateMember { object, field } => {
            let object = swap_expr(object, by, st);
            Kind::PrivateMember { object, field: field.clone() }
        },
        Kind::Call { callee, args, optional } => {
            let callee = swap_expr(callee, by, st);
            let args = swap_elements(args, by, st);
            Kind::Call { callee, args, optional: *optional }
        },
        Kind::Arrow { is_async, params, expression, body } => {
            let body = swap_stmts(body, by, st);
            Kind::Arrow {
                is_async: *is_async,
                params: copied_patterns(params),
                expression: *expression,
                body,
            }
        },
        Kind::Function { is_async, generator, name, params, body } => {
            let body = swap_stmts(body, by, st);
            Kind::Function {
                is_async: *is_async,
                generator: *generator,
                name: copied_text(name),
                params: copied_patterns(params),
                body,
            }
        },
        Kind::Assign { op, target, value } => {
            let target = swap_expr(target, by, st);
            let value = swap_expr(value, by, st);
            Kind::Assign { op: *op, target, value }
        },
        Kind::Unary { op, argument } => {
            let argument = swap_expr(argument, by, st);
            Kind::Unary { op: *op, argument }
        },
        Kind::Binary { op, left, right } => {
            let left = swap_expr(left, by, st);
            let right = swap_expr(right, by, st);
            Kind::Binary { op: *op, left, right }
        },
        Kind::Logical { op, left, right } => {
            let left = swap_expr(left, by, st);
            let right = swap_expr(right, by, st);
            Kind::Logical { op: *op, left, right }
        },
        Kind::Conditional { test, consequent, alternate } => {
            let test = swap_expr(test, by, st);
            let consequent = swap_expr(consequent, by, st);
            let alternate = swap_expr(alternate, by, st);
            Kind::Conditional { test, consequent, alternate }
        },
        Kind::Sequence(items) => {
            let items = swap_exprs(items, by, st);
            Kind::Sequence(items)
        },
        Kind::Paren(inner) => {
            let inner = swap_expr(inner, by, st);
            Kind::Paren(inner)
        },
        Kind::Chain(inner) => {
            let inner = swap_expr(inner, by, st);
            Kind::Chain(inner)
        },
        Kind::Typed { wrapper, expr } => {
            let expr = swap_expr(expr, by, st);
            Kind::Typed { wrapper: *wrapper, expr }
        },
        _ => copied_kind(kind),
    }
}

fn swap_element(item: &Element, by: &Rc<Expr>, st: &mut Option<Rc<Expr>>) -> (done: Element)
    ensures
        (element_value(done), option_value(*final(st))) == element_s(
            element_value(*item),
            expr_value(**by),
            option_value(*old(st)),
        ),
    decreases *item, 0nat,
{
    match item {
        Element::Expr(expr) => {
            let expr = swap_expr(expr, by, st);
            Element::Expr(expr)
        },
        Element::Spread(expr) => {
            let expr = swap_expr(expr, by, st);
            Element::Spread(expr)
        },
        Element::Hole => Element::Hole,
    }
}

fn swap_key(item: &Key, by: &Rc<Expr>, st: &mut Option<Rc<Expr>>) -> (done: Key)
    ensures
        (key_value(done), option_value(*final(st))) == key_s(
            key_value(*item),
            expr_value(**by),
            option_value(*old(st)),
        ),
    decreases *item, 0nat,
{
    match item {
        Key::Expr(expr) => {
            let expr = swap_expr(expr, by, st);
            Key::Expr(expr)
        },
        _ => copied_key(item),
    }
}

fn swap_prop(item: &Prop, by: &Rc<Expr>, st: &mut Option<Rc<Expr>>) -> (done: Prop)
    ensures
        (prop_value(done), option_value(*final(st))) == prop_s(
            prop_value(*item),
            expr_value(**by),
            option_value(*old(st)),
        ),
    decreases *item, 0nat,
{
    match item {
        Prop::Named { span, kind, key, value, method, shorthand, computed } => {
            let key = swap_key(key, by, st);
            let value = swap_expr(value, by, st);
            Prop::Named {
                span: *span,
                kind: *kind,
                key,
                value,
                method: *method,
                shorthand: *shorthand,
                computed: *computed,
            }
        },
        Prop::Spread { span, argument } => {
            let argument = swap_expr(argument, by, st);
            Prop::Spread { span: *span, argument }
        },
    }
}

fn swap_option(item: &Option<Rc<Expr>>, by: &Rc<Expr>, st: &mut Option<Rc<Expr>>) -> (done: Option<
    Rc<Expr>,
>)
    ensures
        (option_value(done), option_value(*final(st))) == option_s(
            option_value(*item),
            expr_value(**by),
            option_value(*old(st)),
        ),
    decreases *item, 0nat,
{
    match item {
        None => None,
        Some(expr) => {
            let expr = swap_expr(expr, by, st);
            Some(expr)
        },
    }
}

fn swap_declarator(item: &Declarator, by: &Rc<Expr>, st: &mut Option<Rc<Expr>>) -> (done: Declarator)
    ensures
        (declarator_v(done), option_value(*final(st))) == declarator_s(
            declarator_v(*item),
            expr_value(**by),
            option_value(*old(st)),
        ),
    decreases *item, 0nat,
{
    let init = swap_option(&item.init, by, st);
    Declarator { pattern: copied_pattern(&item.pattern), init }
}

fn swap_stmt(item: &Stmt, by: &Rc<Expr>, st: &mut Option<Rc<Expr>>) -> (done: Stmt)
    ensures
        (stmt_value(done), option_value(*final(st))) == stmt_s(
            stmt_value(*item),
            expr_value(**by),
            option_value(*old(st)),
        ),
    decreases *item, 0nat,
{
    match item {
        Stmt::Expr(expr) => {
            let expr = swap_expr(expr, by, st);
            Stmt::Expr(expr)
        },
        Stmt::Return(expr) => {
            let expr = swap_option(expr, by, st);
            Stmt::Return(expr)
        },
        Stmt::Var { kind, declarators } => {
            let declarators = swap_declarators(declarators, by, st);
            Stmt::Var { kind: *kind, declarators }
        },
        Stmt::Block(body) => {
            let body = swap_stmts(body, by, st);
            Stmt::Block(body)
        },
        Stmt::If { test, consequent, alternate } => {
            let test = swap_expr(test, by, st);
            let consequent = swap_stmt(consequent, by, st);
            let alternate = match alternate {
                None => None,
                Some(alternate) => {
                    let alternate = swap_stmt(alternate, by, st);
                    Some(Box::new(alternate))
                },
            };
            Stmt::If { test, consequent: Box::new(consequent), alternate }
        },
        Stmt::Function { name, function, body } => {
            let body = swap_stmts(body, by, st);
            Stmt::Function { name: copied_text(name), function: *function, body }
        },
        Stmt::Opaque(id) => Stmt::Opaque(*id),
    }
}

fn swap_exprs(items: &Vec<Rc<Expr>>, by: &Rc<Expr>, st: &mut Option<Rc<Expr>>) -> (done: Vec<Rc<Expr>>)
    ensures
        (expr_values(done@), option_value(*final(st))) == exprs_s(
            expr_values(items@),
            items@.len(),
            expr_value(**by),
            option_value(*old(st)),
        ),
    decreases items, 1nat,
{
    let ghost all = expr_values(items@);
    let mut done: Vec<Rc<Expr>> = Vec::new();
    let mut i: usize = 0;
    while i < items.len()
        invariant
            i <= items@.len(),
            all == expr_values(items@),
            (expr_values(done@), option_value(*st)) == exprs_s(
                all,
                i as nat,
                expr_value(**by),
                option_value(*old(st)),
            ),
        decreases items@.len() - i,
    {
        proof {
            assert(all[i as int] == expr_value(*items@[i as int]));
        }
        let item = swap_expr(&items[i], by, st);
        done.push(item);
        i = i + 1;
    }
    done
}

fn swap_elements(items: &Vec<Element>, by: &Rc<Expr>, st: &mut Option<Rc<Expr>>) -> (done: Vec<Element>)
    ensures
        (element_values(done@), option_value(*final(st))) == elements_s(
            element_values(items@),
            items@.len(),
            expr_value(**by),
            option_value(*old(st)),
        ),
    decreases items, 1nat,
{
    let ghost all = element_values(items@);
    let mut done: Vec<Element> = Vec::new();
    let mut i: usize = 0;
    while i < items.len()
        invariant
            i <= items@.len(),
            all == element_values(items@),
            (element_values(done@), option_value(*st)) == elements_s(
                all,
                i as nat,
                expr_value(**by),
                option_value(*old(st)),
            ),
        decreases items@.len() - i,
    {
        proof {
            assert(all[i as int] == element_value(items@[i as int]));
        }
        let item = swap_element(&items[i], by, st);
        done.push(item);
        i = i + 1;
    }
    done
}

fn swap_props(items: &Vec<Prop>, by: &Rc<Expr>, st: &mut Option<Rc<Expr>>) -> (done: Vec<Prop>)
    ensures
        (prop_values(done@), option_value(*final(st))) == props_s(
            prop_values(items@),
            items@.len(),
            expr_value(**by),
            option_value(*old(st)),
        ),
    decreases items, 1nat,
{
    let ghost all = prop_values(items@);
    let mut done: Vec<Prop> = Vec::new();
    let mut i: usize = 0;
    while i < items.len()
        invariant
            i <= items@.len(),
            all == prop_values(items@),
            (prop_values(done@), option_value(*st)) == props_s(
                all,
                i as nat,
                expr_value(**by),
                option_value(*old(st)),
            ),
        decreases items@.len() - i,
    {
        proof {
            assert(all[i as int] == prop_value(items@[i as int]));
        }
        let item = swap_prop(&items[i], by, st);
        done.push(item);
        i = i + 1;
    }
    done
}

fn swap_declarators(items: &Vec<Declarator>, by: &Rc<Expr>, st: &mut Option<Rc<Expr>>) -> (done: Vec<Declarator>)
    ensures
        (declarator_values(done@), option_value(*final(st))) == declarators_s(
            declarator_values(items@),
            items@.len(),
            expr_value(**by),
            option_value(*old(st)),
        ),
    decreases items, 1nat,
{
    let ghost all = declarator_values(items@);
    let mut done: Vec<Declarator> = Vec::new();
    let mut i: usize = 0;
    while i < items.len()
        invariant
            i <= items@.len(),
            all == declarator_values(items@),
            (declarator_values(done@), option_value(*st)) == declarators_s(
                all,
                i as nat,
                expr_value(**by),
                option_value(*old(st)),
            ),
        decreases items@.len() - i,
    {
        proof {
            assert(all[i as int] == declarator_v(items@[i as int]));
        }
        let item = swap_declarator(&items[i], by, st);
        done.push(item);
        i = i + 1;
    }
    done
}

fn swap_stmts(items: &Vec<Stmt>, by: &Rc<Expr>, st: &mut Option<Rc<Expr>>) -> (done: Vec<Stmt>)
    ensures
        (stmt_values(done@), option_value(*final(st))) == stmts_s(
            stmt_values(items@),
            items@.len(),
            expr_value(**by),
            option_value(*old(st)),
        ),
    decreases items, 1nat,
{
    let ghost all = stmt_values(items@);
    let mut done: Vec<Stmt> = Vec::new();
    let mut i: usize = 0;
    while i < items.len()
        invariant
            i <= items@.len(),
            all == stmt_values(items@),
            (stmt_values(done@), option_value(*st)) == stmts_s(
                all,
                i as nat,
                expr_value(**by),
                option_value(*old(st)),
            ),
        decreases items@.len() - i,
    {
        proof {
            assert(all[i as int] == stmt_value(items@[i as int]));
        }
        let item = swap_stmt(&items[i], by, st);
        done.push(item);
        i = i + 1;
    }
    done
}

} // verus!
