//! The expressions that set an attribute of an element.

use crate::ast::{Expr, ExprV, LogicalOp, Span};
use crate::ir::{helper_ident_expr, helper_v, BindingV, DynamicBinding};
use crate::make::{
    assign, assign_v, call1, call2, call3, call4, call_v, ident, ident_v, logical, logical_v,
    member, member_v, str_v, string, thunk, thunk_v,
};
use crate::outside::{same, share};
use crate::text::{
    ascii_lowercase, before_first, split_once, starts_with, strip_prefix, to_ascii_lowercase,
};
use crate::vocabulary::{entry, lookup, Vocabulary};
use std::rc::Rc;
use vstd::prelude::*;

verus! {

/// What follows a prefix.
pub open spec fn behind(key: Seq<char>, prefix: Seq<char>) -> Seq<char> {
    key.skip(prefix.len() as int)
}

/// The namespace of the prefix of a key.
pub open spec fn namespace_of(key: Seq<char>, vocabulary: Vocabulary) -> Option<Seq<char>> {
    match before_first(key, ':') {
        Some(prefix) => entry(vocabulary.svg_namespaces@, prefix),
        None => None,
    }
}

/// The call of a helper on an element, a name and a value.
pub open spec fn named_set_v(
    span: Span,
    helper: Seq<char>,
    elem: ExprV,
    name: Seq<char>,
    value: ExprV,
) -> ExprV {
    call_v(span, helper_v(span, helper), seq![elem, str_v(span, name), value])
}

/// The call of a helper on an element, a value and perhaps the value before.
pub open spec fn prev_set_v(
    span: Span,
    helper: Seq<char>,
    elem: ExprV,
    value: ExprV,
    prev: Option<ExprV>,
) -> ExprV {
    match prev {
        Some(prev) => call_v(span, helper_v(span, helper), seq![elem, value, prev]),
        None => call_v(span, helper_v(span, helper), seq![elem, value]),
    }
}

/// The setting of a property; that of the value of a `select` is repeated when
/// the options are there.
pub open spec fn property_set_v(
    span: Span,
    binding: BindingV,
    value: ExprV,
    hydratable: bool,
    vocabulary: Vocabulary,
) -> ExprV {
    let elem = ident_v(span, binding.elem);
    let name = if vocabulary.is_child_property(binding.key) {
        binding.key
    } else {
        vocabulary.property_name(binding.key, binding.tag_name)
    };
    if hydratable {
        named_set_v(span, "setProperty"@, elem, name, value)
    } else {
        let assignment = assign_v(span, member_v(span, elem, name), value);
        if binding.key == "value"@ && ascii_lowercase(binding.tag_name) == ascii_lowercase(
            "select"@,
        ) {
            logical_v(
                span,
                call_v(
                    span,
                    ident_v(span, "queueMicrotask"@),
                    seq![thunk_v(span, assignment)],
                ),
                LogicalOp::Or,
                assignment,
            )
        } else {
            assignment
        }
    }
}

/// The expression that sets the attribute of a binding to `value`.
pub open spec fn set_attr_v(
    span: Span,
    binding: BindingV,
    value: ExprV,
    prev: Option<ExprV>,
    hydratable: bool,
    vocabulary: Vocabulary,
) -> ExprV {
    let key = binding.key;
    let elem = ident_v(span, binding.elem);
    if starts_with(key, "bool:"@) {
        named_set_v(span, "setBoolAttribute"@, elem, behind(key, "bool:"@), value)
    } else if starts_with(key, "style:"@) {
        named_set_v(span, "setStyleProperty"@, elem, behind(key, "style:"@), value)
    } else if starts_with(key, "class:"@) {
        call_v(
            span,
            member_v(span, member_v(span, elem, "classList"@), "toggle"@),
            seq![str_v(span, behind(key, "class:"@)), value],
        )
    } else if starts_with(key, "prop:"@) {
        assign_v(span, member_v(span, elem, behind(key, "prop:"@)), value)
    } else if key == "class"@ {
        prev_set_v(span, "className"@, elem, value, prev)
    } else if key == "style"@ {
        prev_set_v(span, "style"@, elem, value, prev)
    } else if key == "classList"@ {
        call_v(span, helper_v(span, "classList"@), seq![elem, value])
    } else if key == "textContent"@ || key == "innerText"@ {
        if hydratable {
            named_set_v(span, "setProperty"@, elem, "data"@, value)
        } else {
            assign_v(span, member_v(span, elem, "data"@), value)
        }
    } else if namespace_of(key, vocabulary) is Some {
        call_v(
            span,
            helper_v(span, "setAttributeNS"@),
            seq![
                elem,
                str_v(span, namespace_of(key, vocabulary)->0),
                str_v(span, key),
                value,
            ],
        )
    } else if vocabulary.is_child_property(key) || vocabulary.is_property(key) {
        property_set_v(span, binding, value, hydratable, vocabulary)
    } else {
        named_set_v(span, "setAttribute"@, elem, key, value)
    }
}

/// The value of an optional expression.
pub open spec fn opt_expr(expr: Option<Rc<Expr>>) -> Option<ExprV> {
    match expr {
        None => None,
        Some(expr) => Some(expr@),
    }
}

/// The namespace of the prefix of a key.
pub fn namespace<'a>(key: &str, vocabulary: &'a Vocabulary) -> (found: Option<&'a str>)
    ensures
        match found {
            Some(found) => namespace_of(key@, *vocabulary) == Some(found@),
            None => namespace_of(key@, *vocabulary) is None,
        },
{
    match split_once(key, ':') {
        Some((prefix, _)) => lookup(&vocabulary.svg_namespaces, prefix.as_str()),
        None => None,
    }
}

fn named_set(span: Span, helper: &str, elem: Rc<Expr>, name: &str, value: Rc<Expr>) -> (expr: Rc<
    Expr,
>)
    ensures
        expr@ == named_set_v(span, helper@, elem@, name@, value@),
{
    call3(span, helper_ident_expr(span, helper), elem, string(span, name), value)
}

fn prev_set(
    span: Span,
    helper: &str,
    elem: Rc<Expr>,
    value: Rc<Expr>,
    prev: Option<Rc<Expr>>,
) -> (expr: Rc<Expr>)
    ensures
        expr@ == prev_set_v(span, helper@, elem@, value@, opt_expr(prev)),
{
    let callee = helper_ident_expr(span, helper);
    match prev {
        Some(prev) => call3(span, callee, elem, value, prev),
        None => call2(span, callee, elem, value),
    }
}

fn property_set(
    span: Span,
    binding: &DynamicBinding,
    value: Rc<Expr>,
    hydratable: bool,
    vocabulary: &Vocabulary,
) -> (expr: Rc<Expr>)
    ensures
        expr@ == property_set_v(span, binding@, value@, hydratable, *vocabulary),
{
    let elem = ident(span, binding.elem.as_str());
    let name = if vocabulary.child_property(binding.key.as_str()) {
        binding.key.as_str()
    } else {
        vocabulary.get_prop_alias(binding.key.as_str(), binding.tag_name.as_str())
    };
    if hydratable {
        return named_set(span, "setProperty", elem, name, value);
    }
    let assignment = assign(span, member(span, elem, name), value);
    if same(binding.key.as_str(), "value") && same(
        to_ascii_lowercase(binding.tag_name.as_str()).as_str(),
        to_ascii_lowercase("select").as_str(),
    ) {
        let callback = thunk(span, share(&assignment));
        let queued = call1(span, ident(span, "queueMicrotask"), callback);
        return logical(span, queued, LogicalOp::Or, assignment);
    }
    assignment
}

/// The expression that sets the attribute of a binding to its value.
pub fn generate_set_attr_expr(
    span: Span,
    binding: &DynamicBinding,
    hydratable: bool,
    vocabulary: &Vocabulary,
) -> (expr: Rc<Expr>)
    ensures
        expr@ == set_attr_v(span, binding@, binding@.value, None, hydratable, *vocabulary),
{
    generate_set_attr_expr_with_value(
        span,
        binding,
        share(&binding.value),
        None,
        hydratable,
        vocabulary,
    )
}

/// The expression that sets the attribute of a binding to `value`.
pub fn generate_set_attr_expr_with_value(
    span: Span,
    binding: &DynamicBinding,
    value: Rc<Expr>,
    prev_value: Option<Rc<Expr>>,
    hydratable: bool,
    vocabulary: &Vocabulary,
) -> (expr: Rc<Expr>)
    ensures
        expr@ == set_attr_v(
            span,
            binding@,
            value@,
            opt_expr(prev_value),
            hydratable,
            *vocabulary,
        ),
{
    let key = binding.key.as_str();
    let elem = ident(span, binding.elem.as_str());
    if let Some(name) = strip_prefix(key, "bool:") {
        return named_set(span, "setBoolAttribute", elem, name, value);
    }
    if let Some(name) = strip_prefix(key, "style:") {
        return named_set(span, "setStyleProperty", elem, name, value);
    }
    if let Some(name) = strip_prefix(key, "class:") {
        let toggle = member(span, member(span, elem, "classList"), "toggle");
        return call2(span, toggle, string(span, name), value);
    }
    if let Some(name) = strip_prefix(key, "prop:") {
        return assign(span, member(span, elem, name), value);
    }
    if same(key, "class") {
        return prev_set(span, "className", elem, value, prev_value);
    }
    if same(key, "style") {
        return prev_set(span, "style", elem, value, prev_value);
    }
    if same(key, "classList") {
        return call2(span, helper_ident_expr(span, "classList"), elem, value);
    }
    if same(key, "textContent") || same(key, "innerText") {
        if hydratable {
            return named_set(span, "setProperty", elem, "data", value);
        }
        return assign(span, member(span, elem, "data"), value);
    }
    if let Some(found) = namespace(key, vocabulary) {
        return call4(
            span,
            helper_ident_expr(span, "setAttributeNS"),
            elem,
            string(span, found),
            string(span, key),
            value,
        );
    }
    if vocabulary.child_property(key) || vocabulary.property(key) {
        return property_set(span, binding, value, hydratable, vocabulary);
    }
    named_set(span, "setAttribute", elem, key, value)
}

} // verus!
