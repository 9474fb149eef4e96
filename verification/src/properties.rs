//! Attributes with a namespace, class lists and inner content.

use crate::ast::{
    group_values, no_span, nowhere, Expr, ExprV, JsxAttribute, JsxValue, Key, Kind, Prop, Span,
};
use crate::attributes::{
    class_toggle_v, cloned, cloned_v, effect_wrapper_enabled, el, el_v,
    inline_attribute_on_template, inline_v, mem, mem_v, opt_str, set_style_v,
    set_style_property_expr, wraps_effects,
};
use crate::ir::{is_zero, BlockContext, ContextV, ResultV, TransformResult};
use crate::make::{
    arrow1_stmt, arrow1_stmt_v, assign, assign_v, bool_cast, bool_cast_v, bool_v, boolean, call1,
    call2, call3, call_v, copied, str_v, string, thunk, thunk_v,
};
use crate::marker::static_marker;
use crate::options::TransformOptions;
use crate::outside::{same, share};
use crate::template::behind;
use crate::text::{
    escape_html, escape_html_v, has_char, join, join_v, joined, starts_with, strip_prefix, texts,
};
use std::rc::Rc;
use vstd::prelude::*;

verus! {

broadcast use group_values;

/// What follows the prefix of a key.
pub fn rest_of<'a>(key: &'a str, prefix: &str) -> (rest: &'a str)
    requires
        starts_with(key@, prefix@),
    ensures
        rest@ == behind(key@, prefix@),
{
    match strip_prefix(key, prefix) {
        Some(rest) => rest,
        None => key,
    }
}

// ---------------------------------------------------------------------------
// prop:
// ---------------------------------------------------------------------------

/// `elem.name = value`.
pub open spec fn prop_assign_v(elem: Seq<char>, name: Seq<char>, value: ExprV) -> ExprV {
    assign_v(no_span(), mem_v(el_v(elem), name), value)
}

fn prop_assign(elem_id: &str, name: &str, value: Rc<Expr>) -> (expr: Rc<Expr>)
    ensures
        expr@ == prop_assign_v(elem_id@, name@, value@),
{
    assign(nowhere(), mem(el(elem_id), name), value)
}

/// A property that is assigned directly.
pub open spec fn prop_v(attr: JsxAttribute, elem: Seq<char>, result: ResultV) -> ResultV {
    let name = behind(attr.key@, "prop:"@);
    match attr.value {
        JsxValue::Container { expr: Some(expr), .. } => if expr.facts.dynamic {
            result.with_binding(result.binding(elem, attr.key@, expr@))
        } else {
            result.with_expr(prop_assign_v(elem, name, expr@))
        },
        JsxValue::Str { value, .. } => result.with_expr(
            prop_assign_v(elem, name, str_v(attr.span, value@)),
        ),
        JsxValue::Absent => result.with_expr(prop_assign_v(elem, name, bool_v(attr.span, true))),
        _ => result,
    }
}

/// Transforms a property that is assigned directly.
pub fn transform_prop(attr: &JsxAttribute, elem_id: &str, result: &mut TransformResult)
    requires
        starts_with(attr.key@, "prop:"@),
    ensures
        final(result)@ == prop_v(*attr, elem_id@, old(result)@),
{
    let name = rest_of(attr.key.as_str(), "prop:");
    match &attr.value {
        JsxValue::Container { expr: Some(expr), .. } => {
            if expr.facts.dynamic {
                result.bind(elem_id, attr.key.as_str(), share(expr));
            } else {
                result.push_expr(prop_assign(elem_id, name, share(expr)));
            }
        },
        JsxValue::Str { value, .. } => {
            result.push_expr(prop_assign(elem_id, name, string(attr.span, value.as_str())));
        },
        JsxValue::Absent => {
            result.push_expr(prop_assign(elem_id, name, boolean(attr.span, true)));
        },
        _ => {},
    }
}

// ---------------------------------------------------------------------------
// bool:
// ---------------------------------------------------------------------------

/// Whether a literal is true; `None` of anything else.
pub open spec fn literal_flag(expr: Expr) -> Option<bool> {
    match expr.kind {
        Kind::Bool(value) => Some(value),
        Kind::Str(text) => Some(text@.len() > 0),
        Kind::Num(number) => Some(!is_zero(number.bits)),
        Kind::Null => Some(false),
        Kind::Ident { name, .. } => if name@ == "undefined"@ {
            Some(false)
        } else {
            None
        },
        _ => None,
    }
}

/// Whether a literal is true; `None` of anything else.
pub fn flag_of_literal(expr: &Expr) -> (flag: Option<bool>)
    ensures
        flag == literal_flag(*expr),
{
    match &expr.kind {
        Kind::Bool(value) => Some(*value),
        Kind::Str(text) => Some(!text.as_str().is_empty()),
        Kind::Num(number) => Some(!number.is_zero()),
        Kind::Null => Some(false),
        Kind::Ident { name, .. } => if same(name.as_str(), "undefined") {
            Some(false)
        } else {
            None
        },
        _ => None,
    }
}

/// Whether the literal value of a boolean attribute sets it: an empty text and
/// "0" do not.
pub open spec fn bool_literal(expr: Expr) -> Option<bool> {
    match expr.kind {
        Kind::Str(text) => Some(text@.len() > 0 && text@ != "0"@),
        _ => literal_flag(expr),
    }
}

fn bool_of_literal(expr: &Expr) -> (flag: Option<bool>)
    ensures
        flag == bool_literal(*expr),
{
    match &expr.kind {
        Kind::Str(text) => Some(!text.as_str().is_empty() && !same(text.as_str(), "0")),
        _ => flag_of_literal(expr),
    }
}

/// The attribute goes into the template where it is set.
pub open spec fn inline_flag_v(
    set: bool,
    result: ResultV,
    ctx: ContextV,
    name: Seq<char>,
    omit_quotes: bool,
    spacing: bool,
) -> (ResultV, ContextV, bool) {
    if set {
        let inlined = inline_v(result, name, None, omit_quotes, spacing);
        (inlined.0, ctx, inlined.1)
    } else {
        (result, ctx, spacing)
    }
}

/// A boolean attribute.
#[verifier::opaque]
pub open spec fn bool_attr_v(
    attr: JsxAttribute,
    elem: Seq<char>,
    result: ResultV,
    ctx: ContextV,
    options: TransformOptions,
    spacing: bool,
) -> (ResultV, ContextV, bool) {
    let name = behind(attr.key@, "bool:"@);
    let omit = options.omit_quotes;
    match attr.value {
        JsxValue::Absent => inline_flag_v(true, result, ctx, name, omit, spacing),
        JsxValue::Str { value, .. } => inline_flag_v(
            value@.len() > 0 && value@ != "0"@,
            result,
            ctx,
            name,
            omit,
            spacing,
        ),
        JsxValue::Container { expr: Some(expr), .. } => match bool_literal(*expr) {
            Some(set) => inline_flag_v(set, result, ctx, name, omit, spacing),
            None => {
                let ctx = ctx.register("setBoolAttribute"@);
                let call = call_v(
                    no_span(),
                    el_v("setBoolAttribute"@),
                    seq![el_v(elem), str_v(no_span(), name), expr@],
                );
                if expr.facts.dynamic && wraps_effects(options) {
                    (
                        result.with_expr(
                            call_v(no_span(), el_v("effect"@), seq![thunk_v(no_span(), call)]),
                        ),
                        ctx.register("effect"@),
                        spacing,
                    )
                } else {
                    (result.with_expr(call), ctx, spacing)
                }
            },
        },
        _ => (result, ctx, spacing),
    }
}

fn inline_flag(
    set: bool,
    result: &mut TransformResult,
    name: &str,
    omit_quotes: bool,
    needs_spacing: &mut bool,
)
    ensures
        forall|ctx: ContextV|
            (final(result)@, ctx, *final(needs_spacing)) == #[trigger] inline_flag_v(
                set,
                old(result)@,
                ctx,
                name@,
                omit_quotes,
                *old(needs_spacing),
            ),
{
    if set {
        inline_attribute_on_template(result, name, None, omit_quotes, needs_spacing);
    }
}

/// Transforms a boolean attribute.
pub fn transform_bool(
    attr: &JsxAttribute,
    elem_id: &str,
    result: &mut TransformResult,
    context: &mut BlockContext,
    options: &TransformOptions,
    needs_spacing: &mut bool,
)
    requires
        starts_with(attr.key@, "bool:"@),
    ensures
        (final(result)@, final(context)@, *final(needs_spacing)) == bool_attr_v(
            *attr,
            elem_id@,
            old(result)@,
            old(context)@,
            *options,
            *old(needs_spacing),
        ),
{
    proof {
        reveal(bool_attr_v);
    }
    let name = rest_of(attr.key.as_str(), "bool:");
    match &attr.value {
        JsxValue::Absent => inline_flag(true, result, name, options.omit_quotes, needs_spacing),
        JsxValue::Str { value, .. } => {
            let set = !value.as_str().is_empty() && !same(value.as_str(), "0");
            inline_flag(set, result, name, options.omit_quotes, needs_spacing);
        },
        JsxValue::Container { expr: Some(expr), .. } => {
            match bool_of_literal(expr) {
                Some(set) => inline_flag(set, result, name, options.omit_quotes, needs_spacing),
                None => {
                    context.register_helper("setBoolAttribute");
                    let call = call3(
                        nowhere(),
                        el("setBoolAttribute"),
                        el(elem_id),
                        string(nowhere(), name),
                        share(expr),
                    );
                    if expr.facts.dynamic && effect_wrapper_enabled(options) {
                        context.register_helper("effect");
                        result.push_expr(call1(nowhere(), el("effect"), thunk(nowhere(), call)));
                    } else {
                        result.push_expr(call);
                    }
                },
            }
        },
        _ => {},
    }
}

// ---------------------------------------------------------------------------
// class:
// ---------------------------------------------------------------------------

/// A class that is toggled.
pub open spec fn class_namespace_v(attr: JsxAttribute, elem: Seq<char>, result: ResultV) -> ResultV {
    let name = behind(attr.key@, "class:"@);
    match attr.value {
        JsxValue::Container { expr: Some(expr), .. } => if expr.facts.dynamic {
            result.with_binding(result.binding(elem, attr.key@, expr@))
        } else {
            result.with_expr(class_toggle_v(elem, name, bool_cast_v(no_span(), expr@)))
        },
        JsxValue::Str { value, .. } => result.with_expr(
            class_toggle_v(elem, name, bool_v(no_span(), value@.len() > 0)),
        ),
        JsxValue::Absent => result.with_expr(class_toggle_v(elem, name, bool_v(no_span(), true))),
        _ => result,
    }
}

/// Transforms a class that is toggled.
pub fn transform_class_namespace(attr: &JsxAttribute, elem_id: &str, result: &mut TransformResult)
    requires
        starts_with(attr.key@, "class:"@),
    ensures
        final(result)@ == class_namespace_v(*attr, elem_id@, old(result)@),
{
    let name = rest_of(attr.key.as_str(), "class:");
    match &attr.value {
        JsxValue::Container { expr: Some(expr), .. } => {
            if expr.facts.dynamic {
                result.bind(elem_id, attr.key.as_str(), share(expr));
            } else {
                let value = bool_cast(nowhere(), share(expr));
                result.push_expr(class_toggle_expr(elem_id, name, value));
            }
        },
        JsxValue::Str { value, .. } => {
            let set = !value.as_str().is_empty();
            result.push_expr(class_toggle_expr(elem_id, name, boolean(nowhere(), set)));
        },
        JsxValue::Absent => {
            result.push_expr(class_toggle_expr(elem_id, name, boolean(nowhere(), true)));
        },
        _ => {},
    }
}

fn class_toggle_expr(elem_id: &str, class_name: &str, value: Rc<Expr>) -> (expr: Rc<Expr>)
    ensures
        expr@ == class_toggle_v(elem_id@, class_name@, value@),
{
    let callee = mem(mem(el(elem_id), "classList"), "toggle");
    call2(nowhere(), callee, string(nowhere(), class_name), value)
}

/// The text of a key that is a name or a string.
pub open spec fn key_text(key: Key) -> Option<Seq<char>> {
    match key {
        Key::Ident(name) => Some(name@),
        Key::Str(text) => Some(text@),
        _ => None,
    }
}

/// The text of a key that is a name or a string.
pub fn text_of_key<'a>(key: &'a Key) -> (text: Option<&'a str>)
    ensures
        opt_str(text) == key_text(*key),
{
    match key {
        Key::Ident(name) => Some(name.as_str()),
        Key::Str(text) => Some(text.as_str()),
        _ => None,
    }
}

/// The class and the value of a property that names a single class.
pub open spec fn class_prop(prop: Prop) -> Option<(Seq<char>, Rc<Expr>)> {
    match prop {
        Prop::Named { key, value, computed, .. } => match key_text(key) {
            Some(name) => if computed || name.contains(' ') || name.contains(':') {
                None
            } else {
                Some((name, value))
            },
            None => None,
        },
        Prop::Spread { .. } => None,
    }
}

fn class_of_prop(prop: &Prop) -> (class: Option<(String, Rc<Expr>)>)
    ensures
        match class {
            Some((name, value)) => class_prop(*prop) == Some((name@, value)),
            None => class_prop(*prop) is None,
        },
{
    match prop {
        Prop::Named { key, value, computed, .. } => match text_of_key(key) {
            Some(name) => if *computed || has_char(name, ' ') || has_char(name, ':') {
                None
            } else {
                Some((copied(name), share(value)))
            },
            None => None,
        },
        Prop::Spread { .. } => None,
    }
}

/// The properties of a class object, one after the other: static classes are
/// collected, the others toggled.  It ends with `false` at a property that does
/// not name a single class.
pub open spec fn class_props_v(
    props: Seq<Prop>,
    elem: Seq<char>,
    result: ResultV,
    classes: Seq<Seq<char>>,
) -> (bool, ResultV, Seq<Seq<char>>)
    decreases props.len(),
{
    if props.len() == 0 {
        (true, result, classes)
    } else {
        match class_prop(props[0]) {
            None => (false, result, classes),
            Some((name, value)) => {
                let rest = props.skip(1);
                match literal_flag(*value) {
                    Some(true) => class_props_v(rest, elem, result, classes.push(name)),
                    Some(false) => class_props_v(rest, elem, result, classes),
                    None => if value.facts.dynamic {
                        class_props_v(
                            rest,
                            elem,
                            result.with_binding(
                                result.binding(elem, "class:"@ + name, value@),
                            ),
                            classes,
                        )
                    } else {
                        class_props_v(
                            rest,
                            elem,
                            result.with_expr(
                                class_toggle_v(elem, name, bool_cast_v(no_span(), value@)),
                            ),
                            classes,
                        )
                    },
                }
            },
        }
    }
}

/// An object of classes: whether it could be taken apart, and what came of it.
#[verifier::opaque]
pub open spec fn class_object_v(
    props: Seq<Prop>,
    elem: Seq<char>,
    result: ResultV,
    omit_quotes: bool,
    spacing: bool,
) -> (bool, ResultV, bool) {
    let taken = class_props_v(props, elem, result, seq![]);
    if taken.0 && taken.2.len() > 0 {
        let inlined = inline_v(
            taken.1,
            "class"@,
            Some(join_v(taken.2, " "@)),
            omit_quotes,
            spacing,
        );
        (true, inlined.0, inlined.1)
    } else {
        (taken.0, taken.1, spacing)
    }
}

/// Transforms an object of classes.
pub fn transform_class_object(
    props: &Vec<Prop>,
    elem_id: &str,
    result: &mut TransformResult,
    omit_quotes: bool,
    needs_spacing: &mut bool,
) -> (taken: bool)
    ensures
        (taken, final(result)@, *final(needs_spacing)) == class_object_v(
            props@,
            elem_id@,
            old(result)@,
            omit_quotes,
            *old(needs_spacing),
        ),
{
    proof {
        reveal(class_object_v);
    }
    let mut classes: Vec<String> = Vec::new();
    let ghost whole = class_props_v(props@, elem_id@, result@, seq![]);
    let mut i: usize = 0;
    proof {
        assert(props@.skip(0) =~= props@);
        assert(texts(classes@) =~= seq![]);
    }
    while i < props.len()
        invariant
            i <= props.len(),
            whole == class_props_v(props@, elem_id@, old(result)@, seq![]),
            whole == class_props_v(
                props@.skip(i as int),
                elem_id@,
                result@,
                texts(classes@),
            ),
            *needs_spacing == *old(needs_spacing),
        decreases props.len() - i,
    {
        proof {
            assert(props@.skip(i as int)[0] == props@[i as int]);
            assert(props@.skip(i as int).skip(1) =~= props@.skip(i + 1));
        }
        match class_of_prop(&props[i]) {
            None => {
                proof {
                    reveal(class_object_v);
                }
                return false;
            },
            Some((name, value)) => match flag_of_literal(&value) {
                Some(set) => {
                    if set {
                        let ghost before = texts(classes@);
                        classes.push(name);
                        proof {
                            assert(texts(classes@) =~= before.push(name@));
                        }
                    }
                },
                None => if value.facts.dynamic {
                    result.bind(elem_id, joined("class:", name.as_str()).as_str(), value);
                } else {
                    let cast = bool_cast(nowhere(), value);
                    result.push_expr(class_toggle_expr(elem_id, name.as_str(), cast));
                },
            },
        }
        i = i + 1;
    }
    if classes.len() > 0 {
        let value = join(&classes, " ");
        inline_attribute_on_template(
            result,
            "class",
            Some(value.as_str()),
            omit_quotes,
            needs_spacing,
        );
    }
    true
}

/// The properties of a class list, one after the other, each toggled.  It ends
/// with `false` at a property that does not name a single class.
pub open spec fn class_list_v(props: Seq<Prop>, elem: Seq<char>, result: ResultV, ctx: ContextV) -> (
    bool,
    ResultV,
    ContextV,
)
    decreases props.len(),
{
    if props.len() == 0 {
        (true, result, ctx)
    } else {
        match class_prop(props[0]) {
            None => (false, result, ctx),
            Some((name, value)) => {
                let rest = props.skip(1);
                match literal_flag(*value) {
                    Some(true) => class_list_v(
                        rest,
                        elem,
                        result.with_expr(class_toggle_v(elem, name, bool_v(no_span(), true))),
                        ctx,
                    ),
                    Some(false) => class_list_v(rest, elem, result, ctx),
                    None => {
                        let toggled = class_toggle_v(elem, name, bool_cast_v(no_span(), value@));
                        if value.facts.dynamic && ctx.effect_wrapper_enabled {
                            class_list_v(
                                rest,
                                elem,
                                result.with_expr(
                                    call_v(
                                        no_span(),
                                        el_v("effect"@),
                                        seq![thunk_v(no_span(), toggled)],
                                    ),
                                ),
                                ctx.register("effect"@),
                            )
                        } else {
                            class_list_v(rest, elem, result.with_expr(toggled), ctx)
                        }
                    },
                }
            },
        }
    }
}

/// Transforms a class list.
pub fn transform_class_list_object(
    props: &Vec<Prop>,
    elem_id: &str,
    result: &mut TransformResult,
    context: &mut BlockContext,
) -> (taken: bool)
    ensures
        (taken, final(result)@, final(context)@) == class_list_v(
            props@,
            elem_id@,
            old(result)@,
            old(context)@,
        ),
{
    let ghost whole = class_list_v(props@, elem_id@, result@, context@);
    let mut i: usize = 0;
    proof {
        assert(props@.skip(0) =~= props@);
    }
    while i < props.len()
        invariant
            i <= props.len(),
            whole == class_list_v(props@, elem_id@, old(result)@, old(context)@),
            whole == class_list_v(props@.skip(i as int), elem_id@, result@, context@),
        decreases props.len() - i,
    {
        proof {
            assert(props@.skip(i as int)[0] == props@[i as int]);
            assert(props@.skip(i as int).skip(1) =~= props@.skip(i + 1));
        }
        match class_of_prop(&props[i]) {
            None => {
                return false;
            },
            Some((name, value)) => match flag_of_literal(&value) {
                Some(set) => {
                    if set {
                        let on = boolean(nowhere(), true);
                        result.push_expr(class_toggle_expr(elem_id, name.as_str(), on));
                    }
                },
                None => {
                    let dynamic = value.facts.dynamic;
                    let cast = bool_cast(nowhere(), value);
                    let toggled = class_toggle_expr(elem_id, name.as_str(), cast);
                    if dynamic && context.wraps_effects() {
                        context.register_helper("effect");
                        result.push_expr(
                            call1(nowhere(), el("effect"), thunk(nowhere(), toggled)),
                        );
                    } else {
                        result.push_expr(toggled);
                    }
                },
            },
        }
        i = i + 1;
    }
    true
}

// ---------------------------------------------------------------------------
// style:
// ---------------------------------------------------------------------------

/// A single property of the style.
#[verifier::opaque]
pub open spec fn style_namespace_v(
    attr: JsxAttribute,
    elem: Seq<char>,
    result: ResultV,
    ctx: ContextV,
) -> (ResultV, ContextV) {
    let name = behind(attr.key@, "style:"@);
    let ctx = ctx.register("setStyleProperty"@);
    match attr.value {
        JsxValue::Container { expr: Some(expr), .. } => if expr.facts.dynamic {
            (result.with_binding(result.binding(elem, attr.key@, expr@)), ctx)
        } else {
            (result.with_expr(set_style_v(elem, name, expr@)), ctx)
        },
        JsxValue::Str { value, .. } => (
            result.with_expr(set_style_v(elem, name, str_v(no_span(), value@))),
            ctx,
        ),
        _ => (result, ctx),
    }
}

/// Transforms a single property of the style.
pub fn transform_style_namespace(
    attr: &JsxAttribute,
    elem_id: &str,
    result: &mut TransformResult,
    context: &mut BlockContext,
)
    requires
        starts_with(attr.key@, "style:"@),
    ensures
        (final(result)@, final(context)@) == style_namespace_v(
            *attr,
            elem_id@,
            old(result)@,
            old(context)@,
        ),
{
    proof {
        reveal(style_namespace_v);
    }
    let name = rest_of(attr.key.as_str(), "style:");
    context.register_helper("setStyleProperty");
    match &attr.value {
        JsxValue::Container { expr: Some(expr), .. } => {
            if expr.facts.dynamic {
                result.bind(elem_id, attr.key.as_str(), share(expr));
            } else {
                result.push_expr(set_style_property_expr(elem_id, name, share(expr)));
            }
        },
        JsxValue::Str { value, .. } => {
            let text = string(nowhere(), value.as_str());
            result.push_expr(set_style_property_expr(elem_id, name, text));
        },
        _ => {},
    }
}

// ---------------------------------------------------------------------------
// Inner content
// ---------------------------------------------------------------------------

/// The setting of `innerHTML`, `textContent` or `innerText`.
pub open spec fn inner_set_v(
    key: Seq<char>,
    elem: Seq<char>,
    value: ExprV,
    ctx: ContextV,
    hydratable: bool,
) -> (ContextV, ExprV) {
    if hydratable {
        (
            ctx.register("setProperty"@),
            call_v(
                no_span(),
                el_v("setProperty"@),
                seq![el_v(elem), str_v(no_span(), key), value],
            ),
        )
    } else {
        (ctx, prop_assign_v(elem, key, value))
    }
}

fn inner_set(
    key: &str,
    elem_id: &str,
    value: Rc<Expr>,
    context: &mut BlockContext,
    hydratable: bool,
) -> (expr: Rc<Expr>)
    ensures
        (final(context)@, expr@) == inner_set_v(key@, elem_id@, value@, old(context)@, hydratable),
{
    if hydratable {
        context.register_helper("setProperty");
        call3(nowhere(), el("setProperty"), el(elem_id), string(nowhere(), key), value)
    } else {
        prop_assign(elem_id, key, value)
    }
}

/// Inner content from an expression.
pub open spec fn inner_expr_v(
    attr: JsxAttribute,
    span: Span,
    expr: Expr,
    elem: Seq<char>,
    result: ResultV,
    ctx: ContextV,
    options: TransformOptions,
) -> (ResultV, ContextV) {
    let key = attr.key@;
    let marked = static_marker(ctx.source, span, options.static_marker@);
    if !marked && expr.facts.dynamic && wraps_effects(options) {
        let ctx = ctx.register("effect"@);
        if expr.facts.condition is Some {
            let set = inner_set_v(key, elem, el_v("_v$"@), ctx, options.hydratable);
            (
                result.with_expr(
                    call_v(
                        no_span(),
                        el_v("effect"@),
                        seq![
                            thunk_v(no_span(), expr@),
                            arrow1_stmt_v(no_span(), "_v$"@, set.1),
                        ],
                    ),
                ),
                set.0,
            )
        } else {
            let set = inner_set_v(key, elem, expr@, ctx, options.hydratable);
            (
                result.with_expr(
                    call_v(no_span(), el_v("effect"@), seq![thunk_v(no_span(), set.1)]),
                ),
                set.0,
            )
        }
    } else {
        let set = inner_set_v(key, elem, cloned_v(expr, marked), ctx, options.hydratable);
        (result.with_expr(set.1), set.0)
    }
}

/// Inner content.
#[verifier::opaque]
pub open spec fn inner_content_v(
    attr: JsxAttribute,
    elem: Seq<char>,
    result: ResultV,
    ctx: ContextV,
    options: TransformOptions,
) -> (ResultV, ContextV) {
    match attr.value {
        JsxValue::Container { span, expr: Some(expr), .. } => inner_expr_v(
            attr,
            span,
            *expr,
            elem,
            result,
            ctx,
            options,
        ),
        JsxValue::Str { value, .. } => {
            let text = if attr.key@ == "innerHTML"@ {
                escape_html_v(value@, false)
            } else {
                value@
            };
            let set = inner_set_v(
                attr.key@,
                elem,
                str_v(no_span(), text),
                ctx,
                options.hydratable,
            );
            (result.with_expr(set.1), set.0)
        },
        _ => (result, ctx),
    }
}

/// Transforms inner content.
pub fn transform_inner_content(
    attr: &JsxAttribute,
    elem_id: &str,
    result: &mut TransformResult,
    context: &mut BlockContext,
    options: &TransformOptions,
)
    ensures
        (final(result)@, final(context)@) == inner_content_v(
            *attr,
            elem_id@,
            old(result)@,
            old(context)@,
            *options,
        ),
{
    proof {
        reveal(inner_content_v);
    }
    let key = attr.key.as_str();
    let hydratable = options.hydratable;
    match &attr.value {
        JsxValue::Container { span, expr: Some(expr), .. } => {
            let marked = context.has_static_marker_comment(*span, options.static_marker);
            if !marked && expr.facts.dynamic && effect_wrapper_enabled(options) {
                context.register_helper("effect");
                if expr.facts.condition.is_some() {
                    let source = thunk(nowhere(), share(expr));
                    let setter = inner_set(key, elem_id, el("_v$"), context, hydratable);
                    let callback = arrow1_stmt(nowhere(), "_v$", setter);
                    result.push_expr(call2(nowhere(), el("effect"), source, callback));
                } else {
                    let setter = inner_set(key, elem_id, share(expr), context, hydratable);
                    result.push_expr(call1(nowhere(), el("effect"), thunk(nowhere(), setter)));
                }
            } else {
                let setter = inner_set(key, elem_id, cloned(expr, marked), context, hydratable);
                result.push_expr(setter);
            }
        },
        JsxValue::Str { value, .. } => {
            let text = if same(key, "innerHTML") {
                string(nowhere(), escape_html(value.as_str(), false).as_str())
            } else {
                string(nowhere(), value.as_str())
            };
            let setter = inner_set(key, elem_id, text, context, hydratable);
            result.push_expr(setter);
        },
        _ => {},
    }
}

} // verus!
