//! `this` inside the components of a class.
//!
//! A component is made in functions of its own, where `this` would be another:
//! so a name is bound to it in front, and stands in its place.

use crate::ast::{
    declarator_values, element_value, element_values, expr_value, expr_values, group_values,
    key_value, kind_value, no_span, nowhere, option_text, option_value, pattern_values, prop_value,
    prop_values, quasi_values, stmt_value, stmt_values, Declarator, DeclaratorV, Element, ElementV,
    Expr, ExprV, Key, KeyV, Kind, KindV, Pattern, Prop, PropKind, PropV, Stmt, StmtV,
};
use crate::copy::{
    copied_facts, copied_key, copied_kind, copied_pattern, copied_patterns, copied_quasis,
    copied_stmt, copied_text,
};
use crate::ir::{BlockContext, ContextV};
use crate::make::{ident, ident_v};
use crate::outside::{same, share};
use crate::peel::{peel_wrapped_expression, peeled_v, peeled_value};
use std::rc::Rc;
use vstd::prelude::*;

verus! {

broadcast use group_values;

/// A rewriting of `this`.
pub struct Rewrite<'a> {
    pub context: BlockContext<'a>,
    /// The name that stands for `this`, once there is one.
    pub alias: Option<String>,
    /// A call that makes a component was met.
    pub handled: bool,
    /// The function that comes next is an accessor, which is looked into.
    pub allow: bool,
    /// The nodes that are carried along and in which `this` is to be replaced
    /// by the name.
    pub rewritten: Vec<(u32, String)>,
}

/// The value of a `Rewrite`.
pub ghost struct RewriteV {
    pub context: ContextV,
    pub alias: Option<Seq<char>>,
    pub handled: bool,
    pub allow: bool,
    pub rewritten: Seq<(u32, Seq<char>)>,
}

/// The values of numbers with names.
pub open spec fn log_values(items: Seq<(u32, String)>) -> Seq<(u32, Seq<char>)> {
    items.map_values(|item: (u32, String)| (item.0, item.1@))
}

impl<'a> View for Rewrite<'a> {
    type V = RewriteV;

    open spec fn view(&self) -> RewriteV {
        RewriteV {
            context: self.context@,
            alias: option_text(self.alias),
            handled: self.handled,
            allow: self.allow,
            rewritten: log_values(self.rewritten@),
        }
    }
}

impl RewriteV {
    /// With a name for `this`: the one there is, or a fresh one.
    pub open spec fn named(self) -> (RewriteV, Seq<char>) {
        match self.alias {
            Some(name) => (self, name),
            None => {
                let (context, name) = self.context.uid("self$"@);
                (RewriteV { context, alias: Some(name), ..self }, name)
            },
        }
    }

    /// Past a node that is carried along; `held` are those that `this` is in.
    pub open spec fn past(self, id: u32, held: Seq<u32>) -> RewriteV {
        if held.contains(id) {
            let (st, name) = self.named();
            RewriteV { rewritten: st.rewritten.push((id, name)), ..st }
        } else {
            self
        }
    }
}

/// The callee makes a component.
pub open spec fn is_create(callee: ExprV) -> bool {
    match peeled_v(callee).kind {
        KindV::Ident { name, .. } => name == "_$createComponent"@,
        _ => false,
    }
}

/// The expression is a call that makes a component.
pub open spec fn is_root_create(expr: ExprV) -> bool {
    match peeled_v(expr).kind {
        KindV::Call { callee, .. } => is_create(*callee),
        _ => false,
    }
}

// ---------------------------------------------------------------------------
// What an expression becomes
// ---------------------------------------------------------------------------

/// What an expression becomes.
pub open spec fn expr_r(expr: Expr, held: Seq<u32>, st: RewriteV) -> (ExprV, RewriteV)
    decreases expr, 0nat,
{
    if expr.kind is This {
        let (st, name) = st.named();
        (ident_v(no_span(), name), st)
    } else {
        let (kind, st) = kind_r(expr.kind, held, st);
        (ExprV { span: expr.span, facts: expr.facts, kind }, st)
    }
}

/// What an expression of this kind becomes.  The first argument of the first
/// call that makes a component stays; a function stays, but for an accessor.
pub open spec fn kind_r(kind: Kind, held: Seq<u32>, st: RewriteV) -> (KindV, RewriteV)
    decreases kind, 0nat,
{
    match kind {
        Kind::Template { quasis, exprs } => {
            let (exprs, st) = exprs_r(exprs@, exprs@.len(), held, st);
            (KindV::Template { quasis: quasi_values(quasis@), exprs }, st)
        },
        Kind::Array(items) => {
            let (items, st) = elements_r(items@, items@.len(), false, held, st);
            (KindV::Array(items), st)
        },
        Kind::Object(props) => {
            let (props, st) = props_r(props@, props@.len(), held, st);
            (KindV::Object(props), st)
        },
        Kind::Member { object, property, optional } => {
            let (object, st) = expr_r(*object, held, st);
            (KindV::Member { object: Box::new(object), property: property@, optional }, st)
        },
        Kind::Index { object, index, optional } => {
            let (object, st) = expr_r(*object, held, st);
            let (index, st) = expr_r(*index, held, st);
            (KindV::Index { object: Box::new(object), index: Box::new(index), optional }, st)
        },
        Kind::PrivateMember { object, field } => {
            let (object, st) = expr_r(*object, held, st);
            (KindV::PrivateMember { object: Box::new(object), field: field@ }, st)
        },
        Kind::Call { callee, args, optional } => {
            let (callee, st) = expr_r(*callee, held, st);
            let first = is_create(callee) && !st.handled;
            let st = RewriteV { handled: st.handled || is_create(callee), ..st };
            let (args, st) = elements_r(args@, args@.len(), first, held, st);
            (KindV::Call { callee: Box::new(callee), args, optional }, st)
        },
        Kind::Arrow { is_async, params, expression, body } => {
            let st = patterns_r(params@, params@.len(), held, st);
            let (body, st) = stmts_r(body@, body@.len(), held, st);
            (KindV::Arrow { is_async, params: pattern_values(params@), expression, body }, st)
        },
        Kind::Function { is_async, generator, name, params, body } => {
            if st.allow {
                let st = patterns_r(
                    params@,
                    params@.len(),
                    held,
                    RewriteV { allow: false, ..st },
                );
                let (body, st) = stmts_r(body@, body@.len(), held, st);
                (
                    KindV::Function {
                        is_async,
                        generator,
                        name: option_text(name),
                        params: pattern_values(params@),
                        body,
                    },
                    RewriteV { allow: true, ..st },
                )
            } else {
                (kind_value(kind), st)
            }
        },
        Kind::Assign { op, target, value } => {
            let (target, st) = expr_r(*target, held, st);
            let (value, st) = expr_r(*value, held, st);
            (KindV::Assign { op, target: Box::new(target), value: Box::new(value) }, st)
        },
        Kind::Unary { op, argument } => {
            let (argument, st) = expr_r(*argument, held, st);
            (KindV::Unary { op, argument: Box::new(argument) }, st)
        },
        Kind::Binary { op, left, right } => {
            let (left, st) = expr_r(*left, held, st);
            let (right, st) = expr_r(*right, held, st);
            (KindV::Binary { op, left: Box::new(left), right: Box::new(right) }, st)
        },
        Kind::Logical { op, left, right } => {
            let (left, st) = expr_r(*left, held, st);
            let (right, st) = expr_r(*right, held, st);
            (KindV::Logical { op, left: Box::new(left), right: Box::new(right) }, st)
        },
        Kind::Conditional { test, consequent, alternate } => {
            let (test, st) = expr_r(*test, held, st);
            let (consequent, st) = expr_r(*consequent, held, st);
            let (alternate, st) = expr_r(*alternate, held, st);
            (
                KindV::Conditional {
                    test: Box::new(test),
                    consequent: Box::new(consequent),
                    alternate: Box::new(alternate),
                },
                st,
            )
        },
        Kind::Sequence(items) => {
            let (items, st) = exprs_r(items@, items@.len(), held, st);
            (KindV::Sequence(items), st)
        },
        Kind::Paren(inner) => {
            let (inner, st) = expr_r(*inner, held, st);
            (KindV::Paren(Box::new(inner)), st)
        },
        Kind::Chain(inner) => {
            let (inner, st) = expr_r(*inner, held, st);
            (KindV::Chain(Box::new(inner)), st)
        },
        Kind::Typed { wrapper, expr } => {
            let (expr, st) = expr_r(*expr, held, st);
            (KindV::Typed { wrapper, expr: Box::new(expr) }, st)
        },
        Kind::Opaque(id) => (KindV::Opaque(id), st.past(id, held)),
        _ => (kind_value(kind), st),
    }
}

/// What the first `n` expressions become.
pub open spec fn exprs_r(items: Seq<Rc<Expr>>, n: nat, held: Seq<u32>, st: RewriteV) -> (
    Seq<ExprV>,
    RewriteV,
)
    decreases items, n,
{
    if n == 0 || n > items.len() {
        (Seq::empty(), st)
    } else {
        let (before, st) = exprs_r(items, (n - 1) as nat, held, st);
        let (item, st) = expr_r(*items[n - 1], held, st);
        (before.push(item), st)
    }
}

/// What an element or an argument becomes.
pub open spec fn element_r(item: Element, held: Seq<u32>, st: RewriteV) -> (ElementV, RewriteV)
    decreases item, 0nat,
{
    match item {
        Element::Expr(expr) => {
            let (expr, st) = expr_r(*expr, held, st);
            (ElementV::Expr(expr), st)
        },
        Element::Spread(expr) => {
            let (expr, st) = expr_r(*expr, held, st);
            (ElementV::Spread(expr), st)
        },
        Element::Hole => (ElementV::Hole, st),
    }
}

/// What the first `n` elements become; `keep` says that the first one stays.
pub open spec fn elements_r(
    items: Seq<Element>,
    n: nat,
    keep: bool,
    held: Seq<u32>,
    st: RewriteV,
) -> (Seq<ElementV>, RewriteV)
    decreases items, n,
{
    if n == 0 || n > items.len() {
        (Seq::empty(), st)
    } else {
        let (before, st) = elements_r(items, (n - 1) as nat, keep, held, st);
        if keep && n == 1 {
            (before.push(element_value(items[0])), st)
        } else {
            let (item, st) = element_r(items[n - 1], held, st);
            (before.push(item), st)
        }
    }
}

/// What a key becomes.
pub open spec fn key_r(key: Key, held: Seq<u32>, st: RewriteV) -> (KeyV, RewriteV)
    decreases key, 0nat,
{
    match key {
        Key::Expr(expr) => {
            let (expr, st) = expr_r(*expr, held, st);
            (KeyV::Expr(expr), st)
        },
        _ => (key_value(key), st),
    }
}

/// What a property becomes.  A function that is a value keeps its own `this`.
pub open spec fn prop_r(prop: Prop, held: Seq<u32>, st: RewriteV) -> (PropV, RewriteV)
    decreases prop, 0nat,
{
    match prop {
        Prop::Named { span, kind, key, value, method, shorthand, computed } => {
            let (key, st) = if computed {
                key_r(key, held, st)
            } else {
                (key_value(key), st)
            };
            let (value, st) = if kind == PropKind::Init {
                if value.kind is Function {
                    (expr_value(*value), st)
                } else {
                    expr_r(*value, held, st)
                }
            } else {
                let (value, after) = expr_r(*value, held, RewriteV { allow: true, ..st });
                (value, RewriteV { allow: st.allow, ..after })
            };
            (PropV::Named { span, kind, key, value, method, shorthand, computed }, st)
        },
        Prop::Spread { span, argument } => {
            let (argument, st) = expr_r(*argument, held, st);
            (PropV::Spread { span, argument }, st)
        },
    }
}

/// What the first `n` properties become.
pub open spec fn props_r(items: Seq<Prop>, n: nat, held: Seq<u32>, st: RewriteV) -> (
    Seq<PropV>,
    RewriteV,
)
    decreases items, n,
{
    if n == 0 || n > items.len() {
        (Seq::empty(), st)
    } else {
        let (before, st) = props_r(items, (n - 1) as nat, held, st);
        let (item, st) = prop_r(items[n - 1], held, st);
        (before.push(item), st)
    }
}

/// Past a pattern.
pub open spec fn pattern_r(pattern: Pattern, held: Seq<u32>, st: RewriteV) -> RewriteV {
    match pattern {
        Pattern::Opaque(id) => st.past(id, held),
        _ => st,
    }
}

/// Past the first `n` patterns.
pub open spec fn patterns_r(items: Seq<Pattern>, n: nat, held: Seq<u32>, st: RewriteV) -> RewriteV
    decreases n,
{
    if n == 0 || n > items.len() {
        st
    } else {
        pattern_r(items[n - 1], held, patterns_r(items, (n - 1) as nat, held, st))
    }
}

/// What an optional expression becomes.
pub open spec fn option_r(expr: Option<Rc<Expr>>, held: Seq<u32>, st: RewriteV) -> (
    Option<ExprV>,
    RewriteV,
)
    decreases expr, 0nat,
{
    match expr {
        None => (None, st),
        Some(expr) => {
            let (expr, st) = expr_r(*expr, held, st);
            (Some(expr), st)
        },
    }
}

/// What a declarator becomes.
pub open spec fn declarator_r(item: Declarator, held: Seq<u32>, st: RewriteV) -> (
    DeclaratorV,
    RewriteV,
)
    decreases item, 0nat,
{
    let (init, st) = option_r(item.init, held, pattern_r(item.pattern, held, st));
    (DeclaratorV { pattern: item.pattern@, init }, st)
}

/// What the first `n` declarators become.
pub open spec fn declarators_r(items: Seq<Declarator>, n: nat, held: Seq<u32>, st: RewriteV) -> (
    Seq<DeclaratorV>,
    RewriteV,
)
    decreases items, n,
{
    if n == 0 || n > items.len() {
        (Seq::empty(), st)
    } else {
        let (before, st) = declarators_r(items, (n - 1) as nat, held, st);
        let (item, st) = declarator_r(items[n - 1], held, st);
        (before.push(item), st)
    }
}

/// What a statement becomes.
pub open spec fn stmt_r(stmt: Stmt, held: Seq<u32>, st: RewriteV) -> (StmtV, RewriteV)
    decreases stmt, 0nat,
{
    match stmt {
        Stmt::Expr(expr) => {
            let (expr, st) = expr_r(*expr, held, st);
            (StmtV::Expr(expr), st)
        },
        Stmt::Return(expr) => {
            let (expr, st) = option_r(expr, held, st);
            (StmtV::Return(expr), st)
        },
        Stmt::Var { kind, declarators } => {
            let (declarators, st) = declarators_r(declarators@, declarators@.len(), held, st);
            (StmtV::Var { kind, declarators }, st)
        },
        Stmt::Block(body) => {
            let (body, st) = stmts_r(body@, body@.len(), held, st);
            (StmtV::Block(body), st)
        },
        Stmt::If { test, consequent, alternate } => {
            let (test, st) = expr_r(*test, held, st);
            let (consequent, st) = stmt_r(*consequent, held, st);
            let (alternate, st) = match alternate {
                None => (None, st),
                Some(alternate) => {
                    let (alternate, st) = stmt_r(*alternate, held, st);
                    (Some(Box::new(alternate)), st)
                },
            };
            (StmtV::If { test, consequent: Box::new(consequent), alternate }, st)
        },
        Stmt::Function { name, function, body } => {
            if st.allow {
                let (body, st) = stmts_r(
                    body@,
                    body@.len(),
                    held,
                    RewriteV { allow: false, ..st }.past(function, held),
                );
                (
                    StmtV::Function { name: option_text(name), function, body },
                    RewriteV { allow: true, ..st },
                )
            } else {
                (stmt_value(stmt), st)
            }
        },
        Stmt::Opaque(id) => (StmtV::Opaque(id), st.past(id, held)),
    }
}

/// What the first `n` statements become.
pub open spec fn stmts_r(items: Seq<Stmt>, n: nat, held: Seq<u32>, st: RewriteV) -> (
    Seq<StmtV>,
    RewriteV,
)
    decreases items, n,
{
    if n == 0 || n > items.len() {
        (Seq::empty(), st)
    } else {
        let (before, st) = stmts_r(items, (n - 1) as nat, held, st);
        let (item, st) = stmt_r(items[n - 1], held, st);
        (before.push(item), st)
    }
}

// ---------------------------------------------------------------------------
// Code
// ---------------------------------------------------------------------------

impl<'a> Rewrite<'a> {
    /// The name that stands for `this`.
    fn alias_name(&mut self) -> (name: String)
        ensures
            (final(self)@, name@) == old(self)@.named(),
    {
        if let Some(existing) = &self.alias {
            return existing.clone();
        }
        let generated = self.context.generate_uid("self$");
        self.alias = Some(generated.clone());
        generated
    }

    /// Goes past a node that is carried along.
    fn pass(&mut self, id: u32, held: &Vec<u32>)
        ensures
            final(self)@ == old(self)@.past(id, held@),
    {
        if is_held(held, id) {
            let name = self.alias_name();
            let ghost before = self.rewritten@;
            self.rewritten.push((id, name));
            proof {
                assert(log_values(self.rewritten@) =~= log_values(before).push((id, name@)));
            }
        }
    }

    /// Goes past patterns.
    fn pass_patterns(&mut self, items: &Vec<Pattern>, held: &Vec<u32>)
        ensures
            final(self)@ == patterns_r(items@, items@.len(), held@, old(self)@),
    {
        let mut i: usize = 0;
        while i < items.len()
            invariant
                i <= items@.len(),
                self@ == patterns_r(items@, i as nat, held@, old(self)@),
            decreases items@.len() - i,
        {
            if let Pattern::Opaque(id) = &items[i] {
                self.pass(*id, held);
            }
            i = i + 1;
        }
    }
}

fn is_held(held: &Vec<u32>, id: u32) -> (yes: bool)
    ensures
        yes == held@.contains(id),
{
    let mut i: usize = 0;
    while i < held.len()
        invariant
            i <= held@.len(),
            forall|k: int| 0 <= k < i ==> #[trigger] held@[k] != id,
        decreases held@.len() - i,
    {
        if held[i] == id {
            return true;
        }
        i = i + 1;
    }
    false
}

/// Whether the callee makes a component.
pub fn is_create_component_callee(expr: &Expr) -> (yes: bool)
    ensures
        yes == is_create(expr_value(*expr)),
{
    proof {
        peeled_value(expr);
    }
    match &peel_wrapped_expression(expr).kind {
        Kind::Ident { name, .. } => same(name.as_str(), "_$createComponent"),
        _ => false,
    }
}

/// Whether the expression is a call that makes a component.
pub fn is_root_create_component_expr(expr: &Expr) -> (yes: bool)
    ensures
        yes == is_root_create(expr_value(*expr)),
{
    proof {
        peeled_value(expr);
    }
    match &peel_wrapped_expression(expr).kind {
        Kind::Call { callee, .. } => is_create_component_callee(callee),
        _ => false,
    }
}

/// Replaces `this` in an expression.
pub fn rewrite_expr(expr: &Rc<Expr>, held: &Vec<u32>, st: &mut Rewrite) -> (done: Rc<Expr>)
    ensures
        (expr_value(*done), final(st)@) == expr_r(**expr, held@, old(st)@),
    decreases **expr, 0nat,
{
    if let Kind::This = &expr.kind {
        let name = st.alias_name();
        return ident(nowhere(), name.as_str());
    }
    let kind = rewrite_kind(&expr.kind, held, st);
    Rc::new(Expr { span: expr.span, facts: copied_facts(&expr.facts), kind })
}

#[verifier::rlimit(60)]
fn rewrite_kind(kind: &Kind, held: &Vec<u32>, st: &mut Rewrite) -> (done: Kind)
    ensures
        (kind_value(done), final(st)@) == kind_r(*kind, held@, old(st)@),
    decreases *kind, 0nat,
{
    match kind {
        Kind::Template { quasis, exprs } => {
            let exprs = rewrite_exprs(exprs, held, st);
            Kind::Template { quasis: copied_quasis(quasis), exprs }
        },
        Kind::Array(items) => {
            let items = rewrite_elements(items, false, held, st);
            Kind::Array(items)
        },
        Kind::Object(props) => {
            let props = rewrite_props(props, held, st);
            Kind::Object(props)
        },
        Kind::Member { object, property, optional } => {
            let object = rewrite_expr(object, held, st);
            Kind::Member { object, property: property.clone(), optional: *optional }
        },
        Kind::Index { object, index, optional } => {
            let object = rewrite_expr(object, held, st);
            let index = rewrite_expr(index, held, st);
            Kind::Index { object, index, optional: *optional }
        },
        Kind::PrivateMember { object, field } => {
            let object = rewrite_expr(object, held, st);
            Kind::PrivateMember { object, field: field.clone() }
        },
        Kind::Call { callee, args, optional } => {
            let callee = rewrite_expr(callee, held, st);
            let creates = is_create_component_callee(&callee);
            let first = creates && !st.handled;
            st.handled = st.handled || creates;
            let args = rewrite_elements(args, first, held, st);
            Kind::Call { callee, args, optional: *optional }
        },
        Kind::Arrow { is_async, params, expression, body } => {
            st.pass_patterns(params, held);
            let body = rewrite_stmts(body, held, st);
            Kind::Arrow {
                is_async: *is_async,
                params: copied_patterns(params),
                expression: *expression,
                body,
            }
        },
        Kind::Function { is_async, generator, name, params, body } => {
            if st.allow {
                st.allow = false;
                st.pass_patterns(params, held);
                let body = rewrite_stmts(body, held, st);
                st.allow = true;
                Kind::Function {
                    is_async: *is_async,
                    generator: *generator,
                    name: copied_text(name),
                    params: copied_patterns(params),
                    body,
                }
            } else {
                copied_kind(kind)
            }
        },
        Kind::Assign { op, target, value } => {
            let target = rewrite_expr(target, held, st);
            let value = rewrite_expr(value, held, st);
            Kind::Assign { op: *op, target, value }
        },
        Kind::Unary { op, argument } => {
            let argument = rewrite_expr(argument, held, st);
            Kind::Unary { op: *op, argument }
        },
        Kind::Binary { op, left, right } => {
            let left = rewrite_expr(left, held, st);
            let right = rewrite_expr(right, held, st);
            Kind::Binary { op: *op, left, right }
        },
        Kind::Logical { op, left, right } => {
            let left = rewrite_expr(left, held, st);
            let right = rewrite_expr(right, held, st);
            Kind::Logical { op: *op, left, right }
        },
        Kind::Conditional { test, consequent, alternate } => {
            let test = rewrite_expr(test, held, st);
            let consequent = rewrite_expr(consequent, held, st);
            let alternate = rewrite_expr(alternate, held, st);
            Kind::Conditional { test, consequent, alternate }
        },
        Kind::Sequence(items) => {
            let items = rewrite_exprs(items, held, st);
            Kind::Sequence(items)
        },
        Kind::Paren(inner) => {
            let inner = rewrite_expr(inner, held, st);
            Kind::Paren(inner)
        },
        Kind::Chain(inner) => {
            let inner = rewrite_expr(inner, held, st);
            Kind::Chain(inner)
        },
        Kind::Typed { wrapper, expr } => {
            let expr = rewrite_expr(expr, held, st);
            Kind::Typed { wrapper: *wrapper, expr }
        },
        Kind::Opaque(id) => {
            st.pass(*id, held);
            Kind::Opaque(*id)
        },
        _ => copied_kind(kind),
    }
}

fn rewrite_exprs(items: &Vec<Rc<Expr>>, held: &Vec<u32>, st: &mut Rewrite) -> (done: Vec<Rc<Expr>>)
    ensures
        (expr_values(done@), final(st)@) == exprs_r(items@, items@.len(), held@, old(st)@),
    decreases items, 1nat,
{
    let mut done: Vec<Rc<Expr>> = Vec::new();
    let mut i: usize = 0;
    while i < items.len()
        invariant
            i <= items@.len(),
            (expr_values(done@), st@) == exprs_r(items@, i as nat, held@, old(st)@),
        decreases items@.len() - i,
    {
        let item = rewrite_expr(&items[i], held, st);
        done.push(item);
        i = i + 1;
    }
    done
}

fn rewrite_element(item: &Element, held: &Vec<u32>, st: &mut Rewrite) -> (done: Element)
    ensures
        (element_value(done), final(st)@) == element_r(*item, held@, old(st)@),
    decreases *item, 0nat,
{
    match item {
        Element::Expr(expr) => {
            let expr = rewrite_expr(expr, held, st);
            Element::Expr(expr)
        },
        Element::Spread(expr) => {
            let expr = rewrite_expr(expr, held, st);
            Element::Spread(expr)
        },
        Element::Hole => Element::Hole,
    }
}

fn rewrite_elements(items: &Vec<Element>, keep: bool, held: &Vec<u32>, st: &mut Rewrite) -> (done:
    Vec<Element>)
    ensures
        (element_values(done@), final(st)@) == elements_r(
            items@,
            items@.len(),
            keep,
            held@,
            old(st)@,
        ),
    decreases items, 1nat,
{
    let mut done: Vec<Element> = Vec::new();
    let mut i: usize = 0;
    while i < items.len()
        invariant
            i <= items@.len(),
            (element_values(done@), st@) == elements_r(items@, i as nat, keep, held@, old(st)@),
        decreases items@.len() - i,
    {
        let item = if keep && i == 0 {
            crate::copy::copied_element(&items[i])
        } else {
            rewrite_element(&items[i], held, st)
        };
        done.push(item);
        i = i + 1;
    }
    done
}

fn rewrite_key(key: &Key, held: &Vec<u32>, st: &mut Rewrite) -> (done: Key)
    ensures
        (key_value(done), final(st)@) == key_r(*key, held@, old(st)@),
    decreases *key, 0nat,
{
    match key {
        Key::Expr(expr) => {
            let expr = rewrite_expr(expr, held, st);
            Key::Expr(expr)
        },
        _ => copied_key(key),
    }
}

fn rewrite_prop(prop: &Prop, held: &Vec<u32>, st: &mut Rewrite) -> (done: Prop)
    ensures
        (prop_value(done), final(st)@) == prop_r(*prop, held@, old(st)@),
    decreases *prop, 0nat,
{
    match prop {
        Prop::Named { span, kind, key, value, method, shorthand, computed } => {
            let key = if *computed {
                rewrite_key(key, held, st)
            } else {
                copied_key(key)
            };
            let value = if *kind == PropKind::Init {
                if let Kind::Function { .. } = &value.kind {
                    share(value)
                } else {
                    rewrite_expr(value, held, st)
                }
            } else {
                let previous = st.allow;
                st.allow = true;
                let value = rewrite_expr(value, held, st);
                st.allow = previous;
                value
            };
            Prop::Named {
                span: *span,
                kind: *kind,
                key,
                value,
                method: *method,
                shorthand: *shorthand,
                computed: *computed,
            }
        },
        Prop::Spread { span, argument } => {
            let argument = rewrite_expr(argument, held, st);
            Prop::Spread { span: *span, argument }
        },
    }
}

fn rewrite_props(items: &Vec<Prop>, held: &Vec<u32>, st: &mut Rewrite) -> (done: Vec<Prop>)
    ensures
        (prop_values(done@), final(st)@) == props_r(items@, items@.len(), held@, old(st)@),
    decreases items, 1nat,
{
    let mut done: Vec<Prop> = Vec::new();
    let mut i: usize = 0;
    while i < items.len()
        invariant
            i <= items@.len(),
            (prop_values(done@), st@) == props_r(items@, i as nat, held@, old(st)@),
        decreases items@.len() - i,
    {
        let item = rewrite_prop(&items[i], held, st);
        done.push(item);
        i = i + 1;
    }
    done
}

fn rewrite_option(expr: &Option<Rc<Expr>>, held: &Vec<u32>, st: &mut Rewrite) -> (done: Option<
    Rc<Expr>,
>)
    ensures
        (option_value(done), final(st)@) == option_r(*expr, held@, old(st)@),
    decreases *expr, 0nat,
{
    match expr {
        None => None,
        Some(expr) => {
            let expr = rewrite_expr(expr, held, st);
            Some(expr)
        },
    }
}

/// The value of a declarator.
pub open spec fn declarator_v(item: Declarator) -> DeclaratorV {
    DeclaratorV { pattern: item.pattern@, init: option_value(item.init) }
}

fn rewrite_declarator(item: &Declarator, held: &Vec<u32>, st: &mut Rewrite) -> (done: Declarator)
    ensures
        (declarator_v(done), final(st)@) == declarator_r(*item, held@, old(st)@),
    decreases *item, 0nat,
{
    if let Pattern::Opaque(id) = &item.pattern {
        st.pass(*id, held);
    }
    let init = rewrite_option(&item.init, held, st);
    Declarator { pattern: copied_pattern(&item.pattern), init }
}

fn rewrite_declarators(items: &Vec<Declarator>, held: &Vec<u32>, st: &mut Rewrite) -> (done: Vec<
    Declarator,
>)
    ensures
        (declarator_values(done@), final(st)@) == declarators_r(
            items@,
            items@.len(),
            held@,
            old(st)@,
        ),
    decreases items, 1nat,
{
    let mut done: Vec<Declarator> = Vec::new();
    let mut i: usize = 0;
    while i < items.len()
        invariant
            i <= items@.len(),
            (declarator_values(done@), st@) == declarators_r(items@, i as nat, held@, old(st)@),
        decreases items@.len() - i,
    {
        let item = rewrite_declarator(&items[i], held, st);
        done.push(item);
        i = i + 1;
    }
    done
}

fn rewrite_stmt(stmt: &Stmt, held: &Vec<u32>, st: &mut Rewrite) -> (done: Stmt)
    ensures
        (stmt_value(done), final(st)@) == stmt_r(*stmt, held@, old(st)@),
    decreases *stmt, 0nat,
{
    match stmt {
        Stmt::Expr(expr) => {
            let expr = rewrite_expr(expr, held, st);
            Stmt::Expr(expr)
        },
        Stmt::Return(expr) => {
            let expr = rewrite_option(expr, held, st);
            Stmt::Return(expr)
        },
        Stmt::Var { kind, declarators } => {
            let declarators = rewrite_declarators(declarators, held, st);
            Stmt::Var { kind: *kind, declarators }
        },
        Stmt::Block(body) => {
            let body = rewrite_stmts(body, held, st);
            Stmt::Block(body)
        },
        Stmt::If { test, consequent, alternate } => {
            let test = rewrite_expr(test, held, st);
            let consequent = rewrite_stmt(consequent, held, st);
            let alternate = match alternate {
                None => None,
                Some(alternate) => {
                    let alternate = rewrite_stmt(alternate, held, st);
                    Some(Box::new(alternate))
                },
            };
            Stmt::If { test, consequent: Box::new(consequent), alternate }
        },
        Stmt::Function { name, function, body } => {
            if st.allow {
                st.allow = false;
                st.pass(*function, held);
                let body = rewrite_stmts(body, held, st);
                st.allow = true;
                Stmt::Function { name: copied_text(name), function: *function, body }
            } else {
                copied_stmt(stmt)
            }
        },
        Stmt::Opaque(id) => {
            st.pass(*id, held);
            Stmt::Opaque(*id)
        },
    }
}

fn rewrite_stmts(items: &Vec<Stmt>, held: &Vec<u32>, st: &mut Rewrite) -> (done: Vec<Stmt>)
    ensures
        (stmt_values(done@), final(st)@) == stmts_r(items@, items@.len(), held@, old(st)@),
    decreases items, 1nat,
{
    let mut done: Vec<Stmt> = Vec::new();
    let mut i: usize = 0;
    while i < items.len()
        invariant
            i <= items@.len(),
            (stmt_values(done@), st@) == stmts_r(items@, i as nat, held@, old(st)@),
        decreases items@.len() - i,
    {
        let item = rewrite_stmt(&items[i], held, st);
        done.push(item);
        i = i + 1;
    }
    done
}

} // verus!
