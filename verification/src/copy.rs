//! Copies of syntax trees.  A copy shares the expressions below it.

use crate::ast::{
    declarator_values, group_values, kind_value, pattern_values, stmt_value, stmt_values,
    Declarator, Element, Expr, Facts, Key, Kind, Number, Pattern, Prop, Quasi, Span,
    StaticTextValue, Stmt,
};
use crate::make::with_span_v;
use crate::outside::share;
use crate::text::texts;
use std::rc::Rc;
use vstd::prelude::*;

verus! {

broadcast use group_values;

/// A copy of a pattern.
pub fn copied_pattern(pattern: &Pattern) -> (copy: Pattern)
    ensures
        copy@ == pattern@,
{
    match pattern {
        Pattern::Ident(name) => Pattern::Ident(name.clone()),
        Pattern::Object(names) => Pattern::Object(copied_texts(names)),
        Pattern::Array(names) => Pattern::Array(copied_texts(names)),
        Pattern::Opaque(id) => Pattern::Opaque(*id),
    }
}

/// A copy of a list of strings.
pub fn copied_texts(items: &Vec<String>) -> (copy: Vec<String>)
    ensures
        texts(copy@) == texts(items@),
{
    let mut copy: Vec<String> = Vec::new();
    let mut i: usize = 0;
    while i < items.len()
        invariant
            i <= items.len(),
            copy@.len() == i,
            forall|k: int| 0 <= k < i ==> #[trigger] copy@[k] == items@[k],
        decreases items.len() - i,
    {
        copy.push(items[i].clone());
        i = i + 1;
    }
    proof {
        assert(texts(copy@) =~= texts(items@));
    }
    copy
}

/// A copy of an optional expression.
pub fn copied_expr_option(expr: &Option<Rc<Expr>>) -> (copy: Option<Rc<Expr>>)
    ensures
        copy == *expr,
{
    match expr {
        None => None,
        Some(expr) => Some(share(expr)),
    }
}

/// A copy of a statement.
pub fn copied_stmt(stmt: &Stmt) -> (copy: Stmt)
    ensures
        copy@ == stmt@,
    decreases stmt,
{
    let copy = match stmt {
        Stmt::Expr(expr) => Stmt::Expr(share(expr)),
        Stmt::Return(expr) => Stmt::Return(copied_expr_option(expr)),
        Stmt::Var { kind, declarators } => {
            let copy = copied_declarators(declarators);
            Stmt::Var { kind: *kind, declarators: copy }
        },
        Stmt::Block(body) => {
            let copy = copied_stmts(body);
            Stmt::Block(copy)
        },
        Stmt::If { test, consequent, alternate } => {
            let first = copied_stmt(consequent);
            let second = match alternate {
                None => None,
                Some(alternate) => Some(Box::new(copied_stmt(alternate))),
            };
            Stmt::If { test: share(test), consequent: Box::new(first), alternate: second }
        },
        Stmt::Function { name, function, body } => {
            let copy = copied_stmts(body);
            Stmt::Function {
                name: match name {
                    None => None,
                    Some(name) => Some(name.clone()),
                },
                function: *function,
                body: copy,
            }
        },
        Stmt::Opaque(id) => Stmt::Opaque(*id),
    };
    proof {
        reveal_with_fuel(stmt_value, 2);
    }
    copy
}

/// A copy of a list of declarators.
pub fn copied_declarators(items: &Vec<Declarator>) -> (copy: Vec<Declarator>)
    ensures
        declarator_values(copy@) == declarator_values(items@),
{
    let mut copy: Vec<Declarator> = Vec::new();
    let mut i: usize = 0;
    while i < items.len()
        invariant
            i <= items.len(),
            copy@.len() == i,
            forall|k: int|
                0 <= k < i ==> (#[trigger] copy@[k]).pattern@ == items@[k].pattern@
                    && copy@[k].init == items@[k].init,
        decreases items.len() - i,
    {
        copy.push(
            Declarator {
                pattern: copied_pattern(&items[i].pattern),
                init: copied_expr_option(&items[i].init),
            },
        );
        i = i + 1;
    }
    proof {
        assert(declarator_values(copy@) =~= declarator_values(items@));
    }
    copy
}

/// A copy of a list of statements.
pub fn copied_stmts(items: &Vec<Stmt>) -> (copy: Vec<Stmt>)
    ensures
        stmt_values(copy@) == stmt_values(items@),
    decreases items,
{
    let mut copy: Vec<Stmt> = Vec::new();
    let mut i: usize = 0;
    while i < items.len()
        invariant
            i <= items.len(),
            copy@.len() == i,
            forall|k: int| 0 <= k < i ==> #[trigger] copy@[k]@ == items@[k]@,
        decreases items.len() - i,
    {
        copy.push(copied_stmt(&items[i]));
        i = i + 1;
    }
    proof {
        assert forall|k: int| 0 <= k < copy@.len() implies stmt_values(copy@)[k] == stmt_values(
            items@,
        )[k] by {
            assert(copy@[k]@ == items@[k]@);
        }
        assert(stmt_values(copy@) =~= stmt_values(items@));
    }
    copy
}

/// A copy of a list of expressions.
pub fn copied_exprs(items: &Vec<Rc<Expr>>) -> (copy: Vec<Rc<Expr>>)
    ensures
        copy@ == items@,
{
    let mut copy: Vec<Rc<Expr>> = Vec::new();
    let mut i: usize = 0;
    while i < items.len()
        invariant
            i <= items.len(),
            copy@ == items@.take(i as int),
        decreases items.len() - i,
    {
        copy.push(share(&items[i]));
        proof {
            assert(items@.take(i + 1) =~= items@.take(i as int).push(items@[i as int]));
        }
        i = i + 1;
    }
    proof {
        assert(items@.take(i as int) =~= items@);
    }
    copy
}


/// A copy of a number.
pub fn copied_number(number: &Number) -> (copy: Number)
    ensures
        copy == *number,
{
    Number { bits: number.bits, text: number.text.clone() }
}

/// A copy of an optional string.
pub fn copied_text(text: &Option<String>) -> (copy: Option<String>)
    ensures
        copy == *text,
{
    match text {
        None => None,
        Some(text) => Some(text.clone()),
    }
}

/// A copy of an element.
pub fn copied_element(item: &Element) -> (copy: Element)
    ensures
        copy == *item,
{
    match item {
        Element::Expr(expr) => Element::Expr(share(expr)),
        Element::Spread(expr) => Element::Spread(share(expr)),
        Element::Hole => Element::Hole,
    }
}

/// A copy of a list of elements.
pub fn copied_elements(items: &Vec<Element>) -> (copy: Vec<Element>)
    ensures
        copy@ == items@,
{
    let mut copy: Vec<Element> = Vec::new();
    let mut i: usize = 0;
    while i < items.len()
        invariant
            i <= items.len(),
            copy@ == items@.take(i as int),
        decreases items.len() - i,
    {
        copy.push(copied_element(&items[i]));
        proof {
            assert(items@.take(i + 1) =~= items@.take(i as int).push(items@[i as int]));
        }
        i = i + 1;
    }
    proof {
        assert(items@.take(i as int) =~= items@);
    }
    copy
}

/// A copy of a property key.
pub fn copied_key(key: &Key) -> (copy: Key)
    ensures
        copy == *key,
{
    match key {
        Key::Ident(name) => Key::Ident(name.clone()),
        Key::Str(text) => Key::Str(text.clone()),
        Key::Num(number) => Key::Num(copied_number(number)),
        Key::Expr(expr) => Key::Expr(share(expr)),
    }
}

/// A copy of a property.
pub fn copied_prop(prop: &Prop) -> (copy: Prop)
    ensures
        copy == *prop,
{
    match prop {
        Prop::Named { span, kind, key, value, method, shorthand, computed } => Prop::Named {
            span: *span,
            kind: *kind,
            key: copied_key(key),
            value: share(value),
            method: *method,
            shorthand: *shorthand,
            computed: *computed,
        },
        Prop::Spread { span, argument } => Prop::Spread { span: *span, argument: share(argument) },
    }
}

/// A copy of a list of properties.
pub fn copied_props(items: &Vec<Prop>) -> (copy: Vec<Prop>)
    ensures
        copy@ == items@,
{
    let mut copy: Vec<Prop> = Vec::new();
    let mut i: usize = 0;
    while i < items.len()
        invariant
            i <= items.len(),
            copy@ == items@.take(i as int),
        decreases items.len() - i,
    {
        copy.push(copied_prop(&items[i]));
        proof {
            assert(items@.take(i + 1) =~= items@.take(i as int).push(items@[i as int]));
        }
        i = i + 1;
    }
    proof {
        assert(items@.take(i as int) =~= items@);
    }
    copy
}

/// A copy of the pieces of a template literal.
pub fn copied_quasis(items: &Vec<Quasi>) -> (copy: Vec<Quasi>)
    ensures
        copy@ == items@,
{
    let mut copy: Vec<Quasi> = Vec::new();
    let mut i: usize = 0;
    while i < items.len()
        invariant
            i <= items.len(),
            copy@ == items@.take(i as int),
        decreases items.len() - i,
    {
        copy.push(Quasi { raw: items[i].raw.clone(), cooked: copied_text(&items[i].cooked) });
        proof {
            assert(items@.take(i + 1) =~= items@.take(i as int).push(items@[i as int]));
        }
        i = i + 1;
    }
    proof {
        assert(items@.take(i as int) =~= items@);
    }
    copy
}

/// A copy of a list of patterns.
pub fn copied_patterns(items: &Vec<Pattern>) -> (copy: Vec<Pattern>)
    ensures
        pattern_values(copy@) == pattern_values(items@),
{
    let mut copy: Vec<Pattern> = Vec::new();
    let mut i: usize = 0;
    while i < items.len()
        invariant
            i <= items.len(),
            copy@.len() == i,
            forall|k: int| 0 <= k < i ==> #[trigger] copy@[k]@ == items@[k]@,
        decreases items.len() - i,
    {
        copy.push(copied_pattern(&items[i]));
        i = i + 1;
    }
    proof {
        assert(pattern_values(copy@) =~= pattern_values(items@));
    }
    copy
}

/// A copy of what is known of an expression.
pub fn copied_facts(facts: &Facts) -> (copy: Facts)
    ensures
        copy == *facts,
{
    Facts {
        dynamic: facts.dynamic,
        static_text: match &facts.static_text {
            None => None,
            Some(StaticTextValue::String(text)) => Some(StaticTextValue::String(text.clone())),
            Some(StaticTextValue::Number(number)) => Some(
                StaticTextValue::Number(copied_number(number)),
            ),
            Some(StaticTextValue::Boolean(value)) => Some(StaticTextValue::Boolean(*value)),
        },
        condition: match &facts.condition {
            None => None,
            Some(condition) => Some(share(condition)),
        },
    }
}

/// A copy of a kind of expression.
pub fn copied_kind(kind: &Kind) -> (copy: Kind)
    ensures
        kind_value(copy) == kind_value(*kind),
{
    match kind {
        Kind::Ident { name, symbol } => Kind::Ident { name: name.clone(), symbol: *symbol },
        Kind::Str(text) => Kind::Str(text.clone()),
        Kind::Num(number) => Kind::Num(copied_number(number)),
        Kind::Bool(value) => Kind::Bool(*value),
        Kind::Null => Kind::Null,
        Kind::This => Kind::This,
        Kind::Template { quasis, exprs } => Kind::Template {
            quasis: copied_quasis(quasis),
            exprs: copied_exprs(exprs),
        },
        Kind::Array(items) => Kind::Array(copied_elements(items)),
        Kind::Object(props) => Kind::Object(copied_props(props)),
        Kind::Member { object, property, optional } => Kind::Member {
            object: share(object),
            property: property.clone(),
            optional: *optional,
        },
        Kind::Index { object, index, optional } => Kind::Index {
            object: share(object),
            index: share(index),
            optional: *optional,
        },
        Kind::PrivateMember { object, field } => Kind::PrivateMember {
            object: share(object),
            field: field.clone(),
        },
        Kind::Call { callee, args, optional } => Kind::Call {
            callee: share(callee),
            args: copied_elements(args),
            optional: *optional,
        },
        Kind::Arrow { is_async, params, expression, body } => Kind::Arrow {
            is_async: *is_async,
            params: copied_patterns(params),
            expression: *expression,
            body: copied_stmts(body),
        },
        Kind::Function { is_async, generator, name, params, body } => Kind::Function {
            is_async: *is_async,
            generator: *generator,
            name: copied_text(name),
            params: copied_patterns(params),
            body: copied_stmts(body),
        },
        Kind::Assign { op, target, value } => Kind::Assign {
            op: *op,
            target: share(target),
            value: share(value),
        },
        Kind::Unary { op, argument } => Kind::Unary { op: *op, argument: share(argument) },
        Kind::Binary { op, left, right } => Kind::Binary {
            op: *op,
            left: share(left),
            right: share(right),
        },
        Kind::Logical { op, left, right } => Kind::Logical {
            op: *op,
            left: share(left),
            right: share(right),
        },
        Kind::Conditional { test, consequent, alternate } => Kind::Conditional {
            test: share(test),
            consequent: share(consequent),
            alternate: share(alternate),
        },
        Kind::Sequence(items) => Kind::Sequence(copied_exprs(items)),
        Kind::Paren(inner) => Kind::Paren(share(inner)),
        Kind::Chain(inner) => Kind::Chain(share(inner)),
        Kind::Typed { wrapper, expr } => Kind::Typed { wrapper: *wrapper, expr: share(expr) },
        Kind::JsxElement(element) => Kind::JsxElement(share(element)),
        Kind::JsxFragment(fragment) => Kind::JsxFragment(share(fragment)),
        Kind::Hole(slot) => Kind::Hole(*slot),
        Kind::Opaque(id) => Kind::Opaque(*id),
    }
}

/// A copy of an expression with another span.
pub fn with_span(expr: &Expr, span: Span) -> (copy: Rc<Expr>)
    ensures
        copy@ == with_span_v(expr@, span),
{
    Rc::new(Expr { span, facts: copied_facts(&expr.facts), kind: copied_kind(&expr.kind) })
}

} // verus!
