//! Functions that are called where they stand, in every list of statements of a
//! file: in functions and blocks, however deep.

use crate::ast::{
    declarator_values, element_value, element_values, expr_value, expr_values, group_values,
    key_value, kind_value, option_value, prop_value, prop_values, stmt_value, stmt_values,
    Declarator, DeclaratorV, Element, ElementV, Expr, ExprV, Key, KeyV, Kind, KindV, Prop, PropV,
    Stmt, StmtV,
};
use crate::capture::declarator_v;
use crate::capture_class::{member_values, ClassMember, ClassMemberV};
use crate::copy::{
    copied_facts, copied_key, copied_kind, copied_pattern, copied_patterns, copied_quasis,
    copied_text,
};
use std::rc::Rc;
use vstd::prelude::*;

verus! {

broadcast use group_values;

// ---------------------------------------------------------------------------
// What a file becomes
// ---------------------------------------------------------------------------

/// What an expression becomes: the lists of statements in it are flattened.
pub open spec fn expr_w(expr: ExprV) -> ExprV
    decreases expr, 0nat,
{
    ExprV { span: expr.span, facts: expr.facts, kind: kind_w(expr.kind) }
}

/// What an expression of this kind becomes.
pub open spec fn kind_w(kind: KindV) -> KindV
    decreases kind, 0nat,
{
    match kind {
        KindV::Template { quasis, exprs } => KindV::Template {
            quasis,
            exprs: exprs_w(exprs, exprs.len()),
        },
        KindV::Array(items) => KindV::Array(elements_w(items, items.len())),
        KindV::Object(props) => KindV::Object(props_w(props, props.len())),
        KindV::Member { object, property, optional } => KindV::Member {
            object: Box::new(expr_w(*object)),
            property,
            optional,
        },
        KindV::Index { object, index, optional } => KindV::Index {
            object: Box::new(expr_w(*object)),
            index: Box::new(expr_w(*index)),
            optional,
        },
        KindV::PrivateMember { object, field } => KindV::PrivateMember {
            object: Box::new(expr_w(*object)),
            field,
        },
        KindV::Call { callee, args, optional } => KindV::Call {
            callee: Box::new(expr_w(*callee)),
            args: elements_w(args, args.len()),
            optional,
        },
        KindV::Arrow { is_async, params, expression, body } => KindV::Arrow {
            is_async,
            params,
            expression,
            body: list_f(body, body.len()),
        },
        KindV::Function { is_async, generator, name, params, body } => KindV::Function {
            is_async,
            generator,
            name,
            params,
            body: list_f(body, body.len()),
        },
        KindV::Assign { op, target, value } => KindV::Assign {
            op,
            target: Box::new(expr_w(*target)),
            value: Box::new(expr_w(*value)),
        },
        KindV::Unary { op, argument } => KindV::Unary {
            op,
            argument: Box::new(expr_w(*argument)),
        },
        KindV::Binary { op, left, right } => KindV::Binary {
            op,
            left: Box::new(expr_w(*left)),
            right: Box::new(expr_w(*right)),
        },
        KindV::Logical { op, left, right } => KindV::Logical {
            op,
            left: Box::new(expr_w(*left)),
            right: Box::new(expr_w(*right)),
        },
        KindV::Conditional { test, consequent, alternate } => KindV::Conditional {
            test: Box::new(expr_w(*test)),
            consequent: Box::new(expr_w(*consequent)),
            alternate: Box::new(expr_w(*alternate)),
        },
        KindV::Sequence(items) => KindV::Sequence(exprs_w(items, items.len())),
        KindV::Paren(inner) => KindV::Paren(Box::new(expr_w(*inner))),
        KindV::Chain(inner) => KindV::Chain(Box::new(expr_w(*inner))),
        KindV::Typed { wrapper, expr } => KindV::Typed { wrapper, expr: Box::new(expr_w(*expr)) },
        _ => kind,
    }
}

/// What the first `n` expressions become.
pub open spec fn exprs_w(items: Seq<ExprV>, n: nat) -> Seq<ExprV>
    decreases items, n,
{
    if n == 0 || n > items.len() {
        Seq::empty()
    } else {
        exprs_w(items, (n - 1) as nat).push(expr_w(items[n - 1]))
    }
}

/// What an element or an argument becomes.
pub open spec fn element_w(item: ElementV) -> ElementV
    decreases item, 0nat,
{
    match item {
        ElementV::Expr(expr) => ElementV::Expr(expr_w(expr)),
        ElementV::Spread(expr) => ElementV::Spread(expr_w(expr)),
        ElementV::Hole => ElementV::Hole,
    }
}

/// What the first `n` elements become.
pub open spec fn elements_w(items: Seq<ElementV>, n: nat) -> Seq<ElementV>
    decreases items, n,
{
    if n == 0 || n > items.len() {
        Seq::empty()
    } else {
        elements_w(items, (n - 1) as nat).push(element_w(items[n - 1]))
    }
}

/// What a key becomes.
pub open spec fn key_w(key: KeyV) -> KeyV
    decreases key, 0nat,
{
    match key {
        KeyV::Expr(expr) => KeyV::Expr(expr_w(expr)),
        _ => key,
    }
}

/// What a property becomes.
pub open spec fn prop_w(prop: PropV) -> PropV
    decreases prop, 0nat,
{
    match prop {
        PropV::Named { span, kind, key, value, method, shorthand, computed } => PropV::Named {
            span,
            kind,
            key: key_w(key),
            value: expr_w(value),
            method,
            shorthand,
            computed,
        },
        PropV::Spread { span, argument } => PropV::Spread { span, argument: expr_w(argument) },
    }
}

/// What the first `n` properties become.
pub open spec fn props_w(items: Seq<PropV>, n: nat) -> Seq<PropV>
    decreases items, n,
{
    if n == 0 || n > items.len() {
        Seq::empty()
    } else {
        props_w(items, (n - 1) as nat).push(prop_w(items[n - 1]))
    }
}

/// What an optional expression becomes.
pub open spec fn option_w(expr: Option<ExprV>) -> Option<ExprV>
    decreases expr, 0nat,
{
    match expr {
        None => None,
        Some(expr) => Some(expr_w(expr)),
    }
}

/// What a declarator becomes where it stands.
pub open spec fn declarator_w(item: DeclaratorV) -> DeclaratorV
    decreases item, 0nat,
{
    DeclaratorV { pattern: item.pattern, init: option_w(item.init) }
}

/// What the first `n` declarators become.
pub open spec fn declarators_w(items: Seq<DeclaratorV>, n: nat) -> Seq<DeclaratorV>
    decreases items, n,
{
    if n == 0 || n > items.len() {
        Seq::empty()
    } else {
        declarators_w(items, (n - 1) as nat).push(declarator_w(items[n - 1]))
    }
}

/// What a statement becomes where it stands.
pub open spec fn stmt_w(stmt: StmtV) -> StmtV
    decreases stmt, 0nat,
{
    match stmt {
        StmtV::Expr(expr) => StmtV::Expr(expr_w(expr)),
        StmtV::Return(expr) => StmtV::Return(option_w(expr)),
        StmtV::Var { kind, declarators } => StmtV::Var {
            kind,
            declarators: declarators_w(declarators, declarators.len()),
        },
        StmtV::Block(body) => StmtV::Block(list_f(body, body.len())),
        StmtV::If { test, consequent, alternate } => StmtV::If {
            test: expr_w(test),
            consequent: Box::new(stmt_w(*consequent)),
            alternate: other_w(alternate),
        },
        StmtV::Function { name, function, body } => StmtV::Function {
            name,
            function,
            body: list_f(body, body.len()),
        },
        StmtV::Opaque(id) => StmtV::Opaque(id),
    }
}

/// What an optional statement becomes where it stands.
pub open spec fn other_w(stmt: Option<Box<StmtV>>) -> Option<Box<StmtV>>
    decreases stmt, 0nat,
{
    match stmt {
        None => None,
        Some(stmt) => Some(Box::new(stmt_w(*stmt))),
    }
}

/// What the first `n` statements become where they stand.
pub open spec fn stmts_w(items: Seq<StmtV>, n: nat) -> Seq<StmtV>
    decreases items, n,
{
    if n == 0 || n > items.len() {
        Seq::empty()
    } else {
        stmts_w(items, (n - 1) as nat).push(stmt_w(items[n - 1]))
    }
}

/// The statements that go in front of a value, and the value: those of
/// `(() => { ..; return value; })()`, else none.
pub open spec fn opened(expr: ExprV) -> (Seq<StmtV>, ExprV)
    decreases expr, 1nat,
{
    match expr.kind {
        KindV::Call { callee, args, .. } => match callee.kind {
            KindV::Arrow { params, expression, body, .. } => if args.len() == 0 && !expression
                && params.len() == 0 && body.len() > 0 {
                match body[body.len() - 1] {
                    StmtV::Return(Some(value)) => (
                        stmts_w(body, (body.len() - 1) as nat),
                        expr_w(value),
                    ),
                    _ => (Seq::empty(), expr_w(expr)),
                }
            } else {
                (Seq::empty(), expr_w(expr))
            },
            _ => (Seq::empty(), expr_w(expr)),
        },
        _ => (Seq::empty(), expr_w(expr)),
    }
}

/// The statements that go in front of an optional value, and the value.
pub open spec fn opened_option(expr: Option<ExprV>) -> (Seq<StmtV>, Option<ExprV>)
    decreases expr, 1nat,
{
    match expr {
        None => (Seq::empty(), None),
        Some(expr) => {
            let (front, value) = opened(expr);
            (front, Some(value))
        },
    }
}

/// The statements that go in front of the first `n` declarators, and the
/// declarators without them.
pub open spec fn declarators_f(items: Seq<DeclaratorV>, n: nat) -> (Seq<StmtV>, Seq<DeclaratorV>)
    decreases items, n,
{
    if n == 0 || n > items.len() {
        (Seq::empty(), Seq::empty())
    } else {
        let (front, done) = declarators_f(items, (n - 1) as nat);
        let last = items[n - 1];
        let (more, init) = opened_option(last.init);
        (front + more, done.push(DeclaratorV { pattern: last.pattern, init }))
    }
}

/// What a statement of a list becomes: the statements that go in front of it,
/// and it.
pub open spec fn stmt_f(stmt: StmtV) -> Seq<StmtV>
    decreases stmt, 1nat,
{
    match stmt {
        StmtV::Return(expr) => {
            let (front, value) = opened_option(expr);
            front.push(StmtV::Return(value))
        },
        StmtV::Var { kind, declarators } => {
            let (front, declarators) = declarators_f(declarators, declarators.len());
            front.push(StmtV::Var { kind, declarators })
        },
        _ => seq![stmt_w(stmt)],
    }
}

/// What the first `n` statements of a list become.
pub open spec fn list_f(items: Seq<StmtV>, n: nat) -> Seq<StmtV>
    decreases items, n,
{
    if n == 0 || n > items.len() {
        Seq::empty()
    } else {
        list_f(items, (n - 1) as nat) + stmt_f(items[n - 1])
    }
}

/// What a member of a class becomes.
pub open spec fn member_f(member: ClassMemberV) -> ClassMemberV {
    match member {
        ClassMemberV::Method(Some(body)) => ClassMemberV::Method(Some(list_f(body, body.len()))),
        ClassMemberV::Method(None) => ClassMemberV::Method(None),
        ClassMemberV::Property(value) => ClassMemberV::Property(option_w(value)),
        ClassMemberV::Opaque(id) => ClassMemberV::Opaque(id),
    }
}

// ---------------------------------------------------------------------------
// Code
// ---------------------------------------------------------------------------

fn walk_expr(expr: &Rc<Expr>) -> (done: Rc<Expr>)
    ensures
        expr_value(*done) == expr_w(expr_value(**expr)),
    decreases **expr, 0nat,
{
    let kind = walk_kind(&expr.kind);
    Rc::new(Expr { span: expr.span, facts: copied_facts(&expr.facts), kind })
}

#[verifier::rlimit(60)]
fn walk_kind(kind: &Kind) -> (done: Kind)
    ensures
        kind_value(done) == kind_w(kind_value(*kind)),
    decreases *kind, 0nat,
{
    match kind {
        Kind::Template { quasis, exprs } => {
            let exprs = walk_exprs(exprs);
            Kind::Template { quasis: copied_quasis(quasis), exprs }
        },
        Kind::Array(items) => {
            let items = walk_elements(items);
            Kind::Array(items)
        },
        Kind::Object(props) => {
            let props = walk_props(props);
            Kind::Object(props)
        },
        Kind::Member { object, property, optional } => {
            let object = walk_expr(object);
            Kind::Member { object, property: property.clone(), optional: *optional }
        },
        Kind::Index { object, index, optional } => {
            let object = walk_expr(object);
            let index = walk_expr(index);
            Kind::Index { object, index, optional: *optional }
        },
        Kind::PrivateMember { object, field } => {
            let object = walk_expr(object);
            Kind::PrivateMember { object, field: field.clone() }
        },
        Kind::Call { callee, args, optional } => {
            let callee = walk_expr(callee);
            let args = walk_elements(args);
            Kind::Call { callee, args, optional: *optional }
        },
        Kind::Arrow { is_async, params, expression, body } => {
            let body = flatten_list(body);
            Kind::Arrow {
                is_async: *is_async,
                params: copied_patterns(params),
                expression: *expression,
                body,
            }
        },
        Kind::Function { is_async, generator, name, params, body } => {
            let body = flatten_list(body);
            Kind::Function {
                is_async: *is_async,
                generator: *generator,
                name: copied_text(name),
                params: copied_patterns(params),
                body,
            }
        },
        Kind::Assign { op, target, value } => {
            let target = walk_expr(target);
            let value = walk_expr(value);
            Kind::Assign { op: *op, target, value }
        },
        Kind::Unary { op, argument } => {
            let argument = walk_expr(argument);
            Kind::Unary { op: *op, argument }
        },
        Kind::Binary { op, left, right } => {
            let left = walk_expr(left);
            let right = walk_expr(right);
            Kind::Binary { op: *op, left, right }
        },
        Kind::Logical { op, left, right } => {
            let left = walk_expr(left);
            let right = walk_expr(right);
            Kind::Logical { op: *op, left, right }
        },
        Kind::Conditional { test, consequent, alternate } => {
            let test = walk_expr(test);
            let consequent = walk_expr(consequent);
            let alternate = walk_expr(alternate);
            Kind::Conditional { test, consequent, alternate }
        },
        Kind::Sequence(items) => {
            let items = walk_exprs(items);
            Kind::Sequence(items)
        },
        Kind::Paren(inner) => {
            let inner = walk_expr(inner);
            Kind::Paren(inner)
        },
        Kind::Chain(inner) => {
            let inner = walk_expr(inner);
            Kind::Chain(inner)
        },
        Kind::Typed { wrapper, expr } => {
            let expr = walk_expr(expr);
            Kind::Typed { wrapper: *wrapper, expr }
        },
        _ => copied_kind(kind),
    }
}

fn walk_exprs(items: &Vec<Rc<Expr>>) -> (done: Vec<Rc<Expr>>)
    ensures
        expr_values(done@) == exprs_w(expr_values(items@), items@.len()),
    decreases items, 1nat,
{
    let mut done: Vec<Rc<Expr>> = Vec::new();
    let mut i: usize = 0;
    while i < items.len()
        invariant
            i <= items@.len(),
            expr_values(done@) == exprs_w(expr_values(items@), i as nat),
        decreases items@.len() - i,
    {
        let item = walk_expr(&items[i]);
        done.push(item);
        i = i + 1;
    }
    done
}

fn walk_element(item: &Element) -> (done: Element)
    ensures
        element_value(done) == element_w(element_value(*item)),
    decreases *item, 0nat,
{
    match item {
        Element::Expr(expr) => {
            let expr = walk_expr(expr);
            Element::Expr(expr)
        },
        Element::Spread(expr) => {
            let expr = walk_expr(expr);
            Element::Spread(expr)
        },
        Element::Hole => Element::Hole,
    }
}

fn walk_elements(items: &Vec<Element>) -> (done: Vec<Element>)
    ensures
        element_values(done@) == elements_w(element_values(items@), items@.len()),
    decreases items, 1nat,
{
    let mut done: Vec<Element> = Vec::new();
    let mut i: usize = 0;
    while i < items.len()
        invariant
            i <= items@.len(),
            element_values(done@) == elements_w(element_values(items@), i as nat),
        decreases items@.len() - i,
    {
        let item = walk_element(&items[i]);
        done.push(item);
        i = i + 1;
    }
    done
}

fn walk_key(key: &Key) -> (done: Key)
    ensures
        key_value(done) == key_w(key_value(*key)),
    decreases *key, 0nat,
{
    match key {
        Key::Expr(expr) => {
            let expr = walk_expr(expr);
            Key::Expr(expr)
        },
        _ => copied_key(key),
    }
}

fn walk_prop(prop: &Prop) -> (done: Prop)
    ensures
        prop_value(done) == prop_w(prop_value(*prop)),
    decreases *prop, 0nat,
{
    match prop {
        Prop::Named { span, kind, key, value, method, shorthand, computed } => {
            let key = walk_key(key);
            let value = walk_expr(value);
            Prop::Named {
                span: *span,
                kind: *kind,
                key,
                value,
                method: *method,
                shorthand: *shorthand,
                computed: *computed,
            }
        },
        Prop::Spread { span, argument } => {
            let argument = walk_expr(argument);
            Prop::Spread { span: *span, argument }
        },
    }
}

fn walk_props(items: &Vec<Prop>) -> (done: Vec<Prop>)
    ensures
        prop_values(done@) == props_w(prop_values(items@), items@.len()),
    decreases items, 1nat,
{
    let mut done: Vec<Prop> = Vec::new();
    let mut i: usize = 0;
    while i < items.len()
        invariant
            i <= items@.len(),
            prop_values(done@) == props_w(prop_values(items@), i as nat),
        decreases items@.len() - i,
    {
        let item = walk_prop(&items[i]);
        done.push(item);
        i = i + 1;
    }
    done
}

fn walk_option(expr: &Option<Rc<Expr>>) -> (done: Option<Rc<Expr>>)
    ensures
        option_value(done) == option_w(option_value(*expr)),
    decreases *expr, 0nat,
{
    match expr {
        None => None,
        Some(expr) => {
            let expr = walk_expr(expr);
            Some(expr)
        },
    }
}

fn walk_declarator(item: &Declarator) -> (done: Declarator)
    ensures
        declarator_v(done) == declarator_w(declarator_v(*item)),
    decreases *item, 0nat,
{
    let init = walk_option(&item.init);
    Declarator { pattern: copied_pattern(&item.pattern), init }
}

fn walk_declarators(items: &Vec<Declarator>) -> (done: Vec<Declarator>)
    ensures
        declarator_values(done@) == declarators_w(declarator_values(items@), items@.len()),
    decreases items, 1nat,
{
    let mut done: Vec<Declarator> = Vec::new();
    let mut i: usize = 0;
    while i < items.len()
        invariant
            i <= items@.len(),
            declarator_values(done@) == declarators_w(declarator_values(items@), i as nat),
        decreases items@.len() - i,
    {
        let item = walk_declarator(&items[i]);
        done.push(item);
        i = i + 1;
    }
    done
}

fn walk_stmt(stmt: &Stmt) -> (done: Stmt)
    ensures
        stmt_value(done) == stmt_w(stmt_value(*stmt)),
    decreases *stmt, 0nat,
{
    match stmt {
        Stmt::Expr(expr) => {
            let expr = walk_expr(expr);
            Stmt::Expr(expr)
        },
        Stmt::Return(expr) => {
            let expr = walk_option(expr);
            Stmt::Return(expr)
        },
        Stmt::Var { kind, declarators } => {
            let declarators = walk_declarators(declarators);
            Stmt::Var { kind: *kind, declarators }
        },
        Stmt::Block(body) => {
            let body = flatten_list(body);
            Stmt::Block(body)
        },
        Stmt::If { test, consequent, alternate } => {
            let test = walk_expr(test);
            let consequent = walk_stmt(consequent);
            let alternate = walk_other(alternate);
            Stmt::If { test, consequent: Box::new(consequent), alternate }
        },
        Stmt::Function { name, function, body } => {
            let body = flatten_list(body);
            Stmt::Function { name: copied_text(name), function: *function, body }
        },
        Stmt::Opaque(id) => Stmt::Opaque(*id),
    }
}

/// The value of an optional statement.
pub open spec fn other_value(stmt: Option<Box<Stmt>>) -> Option<Box<StmtV>> {
    match stmt {
        None => None,
        Some(stmt) => Some(Box::new(stmt_value(*stmt))),
    }
}

fn walk_other(stmt: &Option<Box<Stmt>>) -> (done: Option<Box<Stmt>>)
    ensures
        other_value(done) == other_w(other_value(*stmt)),
    decreases *stmt, 0nat,
{
    match stmt {
        None => None,
        Some(stmt) => {
            let stmt = walk_stmt(stmt);
            Some(Box::new(stmt))
        },
    }
}

/// The first `n` statements of a list, each where it stands.
fn walk_leading(items: &Vec<Stmt>, n: usize) -> (done: Vec<Stmt>)
    requires
        n <= items@.len(),
    ensures
        stmt_values(done@) == stmts_w(stmt_values(items@), n as nat),
    decreases items, 1nat,
{
    let mut done: Vec<Stmt> = Vec::new();
    let mut i: usize = 0;
    while i < n
        invariant
            i <= n <= items@.len(),
            stmt_values(done@) == stmts_w(stmt_values(items@), i as nat),
        decreases n - i,
    {
        let item = walk_stmt(&items[i]);
        done.push(item);
        i = i + 1;
    }
    done
}

/// The value of a call of an arrow function.
pub proof fn arrow_call_value(expr: &Expr)
    ensures
        expr.kind matches Kind::Call { callee, args, .. } ==> {
            &&& expr_value(*expr).kind matches KindV::Call { callee: called, args: given, .. }
            &&& *called == expr_value(*callee)
            &&& given.len() == args@.len()
        },
        !(expr.kind is Call) ==> !(expr_value(*expr).kind is Call),
        expr.kind matches Kind::Arrow { params, expression, body, .. } ==> {
            &&& expr_value(*expr).kind matches KindV::Arrow {
                params: names,
                expression: short,
                body: stmts,
                ..
            }
            &&& names.len() == params@.len()
            &&& short == expression
            &&& stmts == stmt_values(body@)
        },
        !(expr.kind is Arrow) ==> !(expr_value(*expr).kind is Arrow),
{
    assert(expr_value(*expr).kind == kind_value(expr.kind));
    match &expr.kind {
        Kind::Call { args, .. } => {
            assert(element_values(args@).len() == args@.len());
        },
        _ => {},
    }
}

fn open_value(expr: &Rc<Expr>) -> (done: (Vec<Stmt>, Rc<Expr>))
    ensures
        (stmt_values(done.0@), expr_value(*done.1)) == opened(expr_value(**expr)),
    decreases **expr, 1nat,
{
    proof {
        arrow_call_value(expr);
    }
    match &expr.kind {
        Kind::Call { callee, args, .. } => {
            proof {
                arrow_call_value(callee);
            }
            match &callee.kind {
                Kind::Arrow { params, expression, body, .. } => {
                    if args.len() == 0 && !*expression && params.len() == 0 && body.len() > 0 {
                        let ghost last = body@[body@.len() - 1];
                        proof {
                            assert(stmt_values(body@)[body@.len() - 1] == stmt_value(last));
                        }
                        if let Stmt::Return(Some(value)) = &body[body.len() - 1] {
                            proof {
                                assert(option_value(Some(*value)) == Some(expr_value(**value)));
                                assert(stmt_value(last) == StmtV::Return(
                                    Some(expr_value(**value)),
                                ));
                            }
                            let front = walk_leading(body, body.len() - 1);
                            let value = walk_expr(value);
                            return (front, value);
                        }
                    }
                },
                _ => {},
            }
        },
        _ => {},
    }
    (Vec::new(), walk_expr(expr))
}

fn open_option(expr: &Option<Rc<Expr>>) -> (done: (Vec<Stmt>, Option<Rc<Expr>>))
    ensures
        (stmt_values(done.0@), option_value(done.1)) == opened_option(option_value(*expr)),
    decreases *expr, 1nat,
{
    match expr {
        None => (Vec::new(), None),
        Some(expr) => {
            let (front, value) = open_value(expr);
            (front, Some(value))
        },
    }
}

proof fn values_join(left: Seq<Stmt>, right: Seq<Stmt>)
    ensures
        stmt_values(left + right) == stmt_values(left) + stmt_values(right),
{
    assert(stmt_values(left + right) =~= stmt_values(left) + stmt_values(right));
}

fn flatten_declarators(items: &Vec<Declarator>) -> (done: (Vec<Stmt>, Vec<Declarator>))
    ensures
        (stmt_values(done.0@), declarator_values(done.1@)) == declarators_f(
            declarator_values(items@),
            items@.len(),
        ),
    decreases items, 1nat,
{
    let mut front: Vec<Stmt> = Vec::new();
    let mut done: Vec<Declarator> = Vec::new();
    let mut i: usize = 0;
    while i < items.len()
        invariant
            i <= items@.len(),
            (stmt_values(front@), declarator_values(done@)) == declarators_f(
                declarator_values(items@),
                i as nat,
            ),
        decreases items@.len() - i,
    {
        let (more, init) = open_option(&items[i].init);
        let mut more = more;
        proof {
            values_join(front@, more@);
        }
        front.append(&mut more);
        done.push(Declarator { pattern: copied_pattern(&items[i].pattern), init });
        i = i + 1;
    }
    (front, done)
}

/// Adds what a statement of a list becomes.
pub fn flatten_stmt(stmt: &Stmt, list: &mut Vec<Stmt>)
    ensures
        stmt_values(final(list)@) == stmt_values(old(list)@) + stmt_f(stmt_value(*stmt)),
    decreases *stmt, 1nat,
{
    let ghost before = list@;
    match stmt {
        Stmt::Return(expr) => {
            let (front, value) = open_option(expr);
            let mut front = front;
            proof {
                values_join(before, front@);
            }
            list.append(&mut front);
            list.push(Stmt::Return(value));
        },
        Stmt::Var { kind, declarators } => {
            let (front, declarators) = flatten_declarators(declarators);
            let mut front = front;
            proof {
                values_join(before, front@);
            }
            list.append(&mut front);
            list.push(Stmt::Var { kind: *kind, declarators });
        },
        _ => {
            let done = walk_stmt(stmt);
            list.push(done);
        },
    }
    proof {
        assert(stmt_values(list@) =~= stmt_values(before) + stmt_f(stmt_value(*stmt)));
    }
}

/// Moves the statements of functions that are called where they stand in front
/// of the statements that call them, in a list and in every list below it.
pub fn flatten_list(items: &Vec<Stmt>) -> (list: Vec<Stmt>)
    ensures
        stmt_values(list@) == list_f(stmt_values(items@), items@.len()),
    decreases items, 1nat,
{
    let mut list: Vec<Stmt> = Vec::new();
    let mut i: usize = 0;
    while i < items.len()
        invariant
            i <= items@.len(),
            stmt_values(list@) == list_f(stmt_values(items@), i as nat),
        decreases items@.len() - i,
    {
        flatten_stmt(&items[i], &mut list);
        i = i + 1;
    }
    list
}

/// The same in the members of a class.
pub fn flatten_members(members: &Vec<ClassMember>) -> (done: Vec<ClassMember>)
    ensures
        member_values(done@) == member_values(members@).map_values(
            |member: ClassMemberV| member_f(member),
        ),
{
    let ghost want = member_values(members@).map_values(|member: ClassMemberV| member_f(member));
    let mut done: Vec<ClassMember> = Vec::new();
    let mut i: usize = 0;
    while i < members.len()
        invariant
            i <= members@.len(),
            want == member_values(members@).map_values(|member: ClassMemberV| member_f(member)),
            done@.len() == i,
            forall|k: int| 0 <= k < i ==> (#[trigger] done@[k])@ == want[k],
        decreases members@.len() - i,
    {
        let member = match &members[i] {
            ClassMember::Method(Some(body)) => ClassMember::Method(Some(flatten_list(body))),
            ClassMember::Method(None) => ClassMember::Method(None),
            ClassMember::Property(value) => ClassMember::Property(walk_option(value)),
            ClassMember::Opaque(id) => ClassMember::Opaque(*id),
        };
        done.push(member);
        i = i + 1;
    }
    proof {
        assert(member_values(done@) =~= want);
    }
    done
}

} // verus!
