//! Attributes of elements: what goes into the template, and what is run.

use crate::ast::{
    group_values, no_span, nowhere, quasi_values, Expr, ExprV, JsxValue, Kind, KindV, Quasi, QuasiV,
    Span,
};
use crate::copy::with_span;
use crate::ir::{
    form_v, helper_ident_expr, helper_v, BlockContext, ContextV, HelperSource, ResultV,
    TransformResult, Wanted,
};
use crate::make::{
    call3, call_v, copied, ident, ident_v, member, member_v, node_v, str_v, string, template, thunk,
    thunk_v, with_span_v,
};
use crate::options::TransformOptions;
use crate::outside::{same, share};
use crate::peel::{callee_of_plain_call, peel_wrapped_expression, peeled, plain_call};
use crate::text::{
    ascii_lowercase, chars_of, escape_html, escape_html_v, has_prefix, joined, replace_pair,
    replace_v, starts_with, string_of, to_ascii_lowercase, trim_whitespace, trim_whitespace_v,
};
use std::rc::Rc;
use vstd::prelude::*;

verus! {

broadcast use group_values;

// ---------------------------------------------------------------------------
// Parts
// ---------------------------------------------------------------------------

/// A word that stands for the helper of that name.
pub open spec fn is_runtime_word(name: Seq<char>) -> bool {
    name == "NoHydration"@ || name == "addEventListener"@ || name == "className"@ || name
        == "createComponent"@ || name == "effect"@ || name == "getNextElement"@ || name
        == "getNextMarker"@ || name == "getNextMatch"@ || name == "getOwner"@ || name == "insert"@
        || name == "memo"@ || name == "mergeProps"@ || name == "runHydrationEvents"@ || name
        == "setAttribute"@ || name == "setAttributeNS"@ || name == "setBoolAttribute"@ || name
        == "setProperty"@ || name == "setStyleProperty"@ || name == "spread"@ || name == "style"@
        || name == "template"@ || name == "use"@
}

fn runtime_word(name: &str) -> (yes: bool)
    ensures
        yes == is_runtime_word(name@),
{
    same(name, "NoHydration") || same(name, "addEventListener") || same(name, "className") || same(
        name,
        "createComponent",
    ) || same(name, "effect") || same(name, "getNextElement") || same(name, "getNextMarker")
        || same(name, "getNextMatch") || same(name, "getOwner") || same(name, "insert") || same(
        name,
        "memo",
    ) || same(name, "mergeProps") || same(name, "runHydrationEvents") || same(name, "setAttribute")
        || same(name, "setAttributeNS") || same(name, "setBoolAttribute") || same(
        name,
        "setProperty",
    ) || same(name, "setStyleProperty") || same(name, "spread") || same(name, "style") || same(
        name,
        "template",
    ) || same(name, "use")
}

/// A name, or the helper that it stands for.
pub open spec fn el_v(name: Seq<char>) -> ExprV {
    if is_runtime_word(name) {
        helper_v(no_span(), name)
    } else {
        ident_v(no_span(), name)
    }
}

/// A name, or the helper that it stands for.
pub fn el(name: &str) -> (expr: Rc<Expr>)
    ensures
        expr@ == el_v(name@),
{
    if runtime_word(name) {
        helper_ident_expr(nowhere(), name)
    } else {
        ident(nowhere(), name)
    }
}

/// A helper of the DOM runtime, imported.
pub open spec fn dom_helper_v(ctx: ContextV, span: Span, name: Seq<char>) -> (ContextV, ExprV) {
    let import = ctx.import(name, HelperSource::Dom);
    (import.0, ident_v(span, import.1))
}

/// A helper of the DOM runtime, imported.
pub fn dom_helper_expr(context: &mut BlockContext, span: Span, name: &str) -> (expr: Rc<Expr>)
    ensures
        (final(context)@, expr@) == dom_helper_v(old(context)@, span, name@),
{
    context.helper_ident_expr_with_source(span, name, HelperSource::Dom)
}

/// `object.property`.
pub open spec fn mem_v(object: ExprV, property: Seq<char>) -> ExprV {
    member_v(no_span(), object, property)
}

pub fn mem(object: Rc<Expr>, property: &str) -> (expr: Rc<Expr>)
    ensures
        expr@ == mem_v(object@, property@),
{
    member(nowhere(), object, property)
}

/// `elem.classList.toggle(name, value)`.
pub open spec fn class_toggle_v(elem: Seq<char>, name: Seq<char>, value: ExprV) -> ExprV {
    call_v(
        no_span(),
        mem_v(mem_v(el_v(elem), "classList"@), "toggle"@),
        seq![str_v(no_span(), name), value],
    )
}

/// `setStyleProperty(elem, name, value)`.
pub open spec fn set_style_v(elem: Seq<char>, name: Seq<char>, value: ExprV) -> ExprV {
    call_v(
        no_span(),
        el_v("setStyleProperty"@),
        seq![el_v(elem), str_v(no_span(), name), value],
    )
}

pub fn set_style_property_expr(elem_id: &str, name: &str, value: Rc<Expr>) -> (expr: Rc<Expr>)
    ensures
        expr@ == set_style_v(elem_id@, name@, value@),
{
    call3(nowhere(), el("setStyleProperty"), el(elem_id), string(nowhere(), name), value)
}

/// A template literal of one piece.
pub open spec fn raw_template_v(raw: Seq<char>) -> ExprV {
    node_v(
        no_span(),
        KindV::Template { quasis: seq![QuasiV { raw, cooked: Some(raw) }], exprs: seq![] },
    )
}

pub fn template_literal_expr_from_raw(raw: &str) -> (expr: Rc<Expr>)
    ensures
        expr@ == raw_template_v(raw@),
{
    let mut quasis: Vec<Quasi> = Vec::new();
    quasis.push(Quasi { raw: copied(raw), cooked: Some(copied(raw)) });
    proof {
        assert(quasi_values(quasis@) =~= seq![QuasiV { raw: raw@, cooked: Some(raw@) }]);
    }
    template(nowhere(), quasis, Vec::new())
}

/// An expression of the source; without its place where a marker comment
/// stands before it.
pub open spec fn cloned_v(expr: Expr, marked: bool) -> ExprV {
    if marked {
        with_span_v(expr@, no_span())
    } else {
        expr@
    }
}

pub fn cloned(expr: &Rc<Expr>, marked: bool) -> (copy: Rc<Expr>)
    ensures
        copy@ == cloned_v(**expr, marked),
{
    if marked {
        with_span(expr, nowhere())
    } else {
        share(expr)
    }
}

/// Effects are wrapped.
pub open spec fn wraps_effects(options: TransformOptions) -> bool {
    options.effect_wrapper@.len() > 0
}

/// Memos are wrapped.
pub open spec fn wraps_memos(options: TransformOptions) -> bool {
    options.memo_wrapper@.len() > 0
}

pub fn effect_wrapper_enabled(options: &TransformOptions) -> (yes: bool)
    ensures
        yes == wraps_effects(*options),
{
    !options.effect_wrapper.is_empty()
}

pub fn memo_wrapper_enabled(options: &TransformOptions) -> (yes: bool)
    ensures
        yes == wraps_memos(*options),
{
    !options.memo_wrapper.is_empty()
}

/// The expression in the braces of an attribute.
pub open spec fn container_expr(value: JsxValue) -> Option<Rc<Expr>> {
    match value {
        JsxValue::Container { expr, .. } => expr,
        _ => None,
    }
}

pub fn expr_in_container(value: &JsxValue) -> (expr: Option<Rc<Expr>>)
    ensures
        expr == container_expr(*value),
{
    match value {
        JsxValue::Container { expr, .. } => match expr {
            Some(expr) => Some(share(expr)),
            None => None,
        },
        _ => None,
    }
}

// ---------------------------------------------------------------------------
// Inserted values
// ---------------------------------------------------------------------------

/// A call of a template or of an element factory.
pub open spec fn is_factory_call(expr: Expr) -> bool {
    match peeled(expr).kind {
        Kind::Call { callee, .. } => match callee.kind {
            Kind::Ident { name, .. } => starts_with(name@, "_tmpl$"@) || starts_with(
                name@,
                "_$createElement"@,
            ),
            _ => false,
        },
        _ => false,
    }
}

fn is_static_insert_factory_call(expr: &Expr) -> (yes: bool)
    ensures
        yes == is_factory_call(*expr),
{
    match &peel_wrapped_expression(expr).kind {
        Kind::Call { callee, .. } => match &callee.kind {
            Kind::Ident { name, .. } => has_prefix(name.as_str(), "_tmpl$") || has_prefix(
                name.as_str(),
                "_$createElement",
            ),
            _ => false,
        },
        _ => false,
    }
}

/// A branch that needs no effect.
pub open spec fn is_static_branch(expr: Expr) -> bool {
    is_factory_call(expr) || !peeled(expr).facts.dynamic
}

fn is_static_insert_branch(expr: &Expr) -> (yes: bool)
    ensures
        yes == is_static_branch(*expr),
{
    is_static_insert_factory_call(expr) || !peel_wrapped_expression(expr).facts.dynamic
}

/// A conditional that needs no effect.
pub open spec fn is_static_conditional(expr: Expr) -> bool {
    match peeled(expr).kind {
        Kind::Conditional { test, consequent, alternate } => !test.facts.dynamic
            && is_static_branch(*consequent) && is_static_branch(*alternate),
        _ => false,
    }
}

pub fn should_keep_conditional_insert_static(expr: &Expr) -> (yes: bool)
    ensures
        yes == is_static_conditional(*expr),
{
    match &peel_wrapped_expression(expr).kind {
        Kind::Conditional { test, consequent, alternate } => !test.facts.dynamic
            && is_static_insert_branch(consequent) && is_static_insert_branch(alternate),
        _ => false,
    }
}

/// What is inserted for an expression.
pub open spec fn insert_value_v(expr: Expr, options: TransformOptions) -> ExprV {
    if plain_call(expr) is Some {
        (plain_call(expr)->0)@
    } else if is_static_conditional(expr) {
        expr@
    } else if options.wrap_conditionals && wraps_memos(options) && expr.facts.dynamic
        && expr.facts.condition is Some {
        form_v((expr.facts.condition->0).insert, expr)
    } else if expr.facts.dynamic {
        thunk_v(no_span(), expr@)
    } else {
        expr@
    }
}

/// The context behind what is inserted for an expression.
pub open spec fn inserting_v(expr: Expr, options: TransformOptions, ctx: ContextV) -> ContextV {
    if plain_call(expr) is None && !is_static_conditional(expr) && options.wrap_conditionals
        && wraps_memos(options) && expr.facts.dynamic && expr.facts.condition is Some {
        ctx.lowering((expr.facts.condition->0).insert, Wanted::Insert, expr.span)
    } else {
        ctx
    }
}

/// What is inserted for an expression.
pub fn normalize_insert_value(
    expr: &Rc<Expr>,
    context: &mut BlockContext,
    options: &TransformOptions,
) -> (value: Rc<Expr>)
    ensures
        value@ == insert_value_v(**expr, *options),
        final(context)@ == inserting_v(**expr, *options, old(context)@),
{
    if let Some(callee) = callee_of_plain_call(expr) {
        return callee;
    }
    if should_keep_conditional_insert_static(expr) {
        return share(expr);
    }
    if options.wrap_conditionals && memo_wrapper_enabled(options) && expr.facts.dynamic {
        if let Some(condition) = &expr.facts.condition {
            return context.lower(&condition.insert, Wanted::Insert, expr);
        }
    }
    if expr.facts.dynamic {
        return thunk(nowhere(), share(expr));
    }
    share(expr)
}

// ---------------------------------------------------------------------------
// Template text
// ---------------------------------------------------------------------------

/// The value of an attribute as it goes into the template.
pub open spec fn inline_value(key: Seq<char>, value: Seq<char>) -> Seq<char> {
    if key == "style"@ {
        let text = replace_v(
            replace_v(trim_whitespace_v(value), seq![';', ' '], seq![';']),
            seq![':', ' '],
            seq![':'],
        );
        if text.len() > 0 && text.last() == ';' {
            text.drop_last()
        } else {
            text
        }
    } else if key == "class"@ {
        trim_whitespace_v(value)
    } else {
        value
    }
}

/// The value of an attribute as it goes into the template.
pub fn normalize_inline_attr_value(key: &str, value: &str) -> (text: String)
    ensures
        text@ == inline_value(key@, value@),
{
    if same(key, "style") {
        let trimmed = trim_whitespace(value);
        let first = replace_pair(trimmed.as_str(), ';', ' ', ';');
        let text = replace_pair(first.as_str(), ':', ' ', ':');
        let chars = chars_of(text.as_str());
        let n: usize = chars.len();
        if n > 0 && chars[n - 1] == ';' {
            let cut = string_of(&chars, 0, n - 1);
            proof {
                assert(cut@ =~= text@.drop_last());
            }
            cut
        } else {
            text
        }
    } else if same(key, "class") {
        trim_whitespace(value)
    } else {
        copied(value)
    }
}

/// A character that an unquoted value must not hold.
pub open spec fn is_quote_char(c: char) -> bool {
    c == '\'' || c == '"' || c == ' ' || c == '\t' || c == '\n' || c == '\r' || c == '`' || c == '='
        || c == '<' || c == '>'
}

/// A value that must be quoted.
pub open spec fn needs_quotes(value: Seq<char>) -> bool {
    exists|i: int| 0 <= i < value.len() && is_quote_char(#[trigger] value[i])
}

fn must_quote(value: &str) -> (yes: bool)
    ensures
        yes == needs_quotes(value@),
{
    let chars = chars_of(value);
    let mut i: usize = 0;
    while i < chars.len()
        invariant
            i <= chars.len(),
            chars@ == value@,
            forall|k: int| 0 <= k < i ==> !is_quote_char(#[trigger] value@[k]),
        decreases chars.len() - i,
    {
        let c = chars[i];
        if c == '\'' || c == '"' || c == ' ' || c == '\t' || c == '\n' || c == '\r' || c == '`' || c
            == '=' || c == '<' || c == '>' {
            proof {
                assert(is_quote_char(value@[i as int]));
            }
            return true;
        }
        i = i + 1;
    }
    false
}

/// An attribute put into the template, and whether a blank must follow before
/// the next.
pub open spec fn inline_v(
    result: ResultV,
    key: Seq<char>,
    value: Option<Seq<char>>,
    omit_quotes: bool,
    spacing: bool,
) -> (ResultV, bool) {
    let key = if !result.is_svg && key != "className"@ {
        ascii_lowercase(key)
    } else {
        key
    };
    let named = result.with_template(
        (if spacing {
            " "@
        } else {
            ""@
        }) + key,
    );
    match value {
        None => (named, true),
        Some(raw) => {
            let text = inline_value(key, raw);
            let escaped = escape_html_v(text, true);
            if text.len() == 0 {
                (named, true)
            } else if !omit_quotes || needs_quotes(text) {
                (named.with_template("=\""@ + escaped + "\""@), false)
            } else {
                (named.with_template("="@ + escaped), true)
            }
        },
    }
}

/// The view of an optional string slice.
pub open spec fn opt_str(text: Option<&str>) -> Option<Seq<char>> {
    match text {
        None => None,
        Some(text) => Some(text@),
    }
}

/// Puts an attribute into the template.
pub fn inline_attribute_on_template(
    result: &mut TransformResult,
    key: &str,
    value: Option<&str>,
    omit_quotes: bool,
    needs_spacing: &mut bool,
)
    ensures
        (final(result)@, *final(needs_spacing)) == inline_v(
            old(result)@,
            key@,
            opt_str(value),
            omit_quotes,
            *old(needs_spacing),
        ),
{
    let normalized_key = if !result.svg() && !same(key, "className") {
        to_ascii_lowercase(key)
    } else {
        copied(key)
    };
    let prefix = if *needs_spacing {
        " "
    } else {
        ""
    };
    result.push_template_text(joined(prefix, normalized_key.as_str()).as_str());
    match value {
        None => {
            *needs_spacing = true;
        },
        Some(raw) => {
            let text = normalize_inline_attr_value(normalized_key.as_str(), raw);
            if text.as_str().is_empty() {
                *needs_spacing = true;
                return;
            }
            let escaped = escape_html(text.as_str(), true);
            if !omit_quotes || must_quote(text.as_str()) {
                let mut quoted = joined("=\"", escaped.as_str());
                quoted.append("\"");
                result.push_template_text(quoted.as_str());
                *needs_spacing = false;
            } else {
                result.push_template_text(joined("=", escaped.as_str()).as_str());
                *needs_spacing = true;
            }
        },
    }
}

} // verus!
