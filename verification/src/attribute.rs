//! A single attribute of an element.

use crate::ast::{
    group_values, no_span, nowhere, Expr, ExprV, JsxAttribute, JsxValue, Kind, Pattern, PatternV,
    Prop, Span,
};
use crate::attributes::{
    cloned, cloned_v, effect_wrapper_enabled, el, el_v, inline_attribute_on_template, inline_v,
    mem, mem_v, wraps_effects,
};
use crate::handlers::{
    directive_v, event_v, ref_v, transform_directive, transform_event, transform_ref,
};
use crate::ir::{opt, BlockContext, ContextV, ResultV, TransformResult};
use crate::make::{
    arrow1_stmt, arrow1_stmt_v, bool_v, boolean, call2, call_v, str_v, string, thunk, thunk_v,
};
use crate::marker::static_marker_anywhere;
use crate::options::TransformOptions;
use crate::outside::{same, share};
use crate::output::{register_binding, register_dynamic_binding_helper};
use crate::peel::{callee_of_plain_call, peel_wrapped_expression, peeled, plain_call};
use crate::properties::{
    bool_attr_v, class_list_v, class_namespace_v, class_object_v, inner_content_v, prop_v,
    style_namespace_v, transform_bool, transform_class_list_object, transform_class_namespace,
    transform_class_object, transform_inner_content, transform_prop, transform_style_namespace,
};
use crate::statics::{confident, is_confident_static_expression};
use crate::style::{style_needs_id, style_v, transform_style};
use crate::template::{generate_set_attr_expr_with_value, set_attr_v};
use crate::text::{has_char, has_prefix, starts_with};
use crate::vocabulary::Vocabulary;
use std::rc::Rc;
use vstd::prelude::*;

verus! {

broadcast use group_values;

/// What the attributes of an element build up: the result, the context,
/// whether the element gets a text placeholder, and whether a blank must stand
/// before the next attribute.
pub ghost struct AttrStateV {
    pub result: ResultV,
    pub ctx: ContextV,
    pub placeholder: bool,
    pub spacing: bool,
}

impl AttrStateV {
    /// With another result and context.
    pub open spec fn with(self, pair: (ResultV, ContextV)) -> AttrStateV {
        AttrStateV { result: pair.0, ctx: pair.1, ..self }
    }

    pub open spec fn with_result(self, result: ResultV) -> AttrStateV {
        AttrStateV { result, ..self }
    }

    pub open spec fn with_spaced(self, triple: (ResultV, ContextV, bool)) -> AttrStateV {
        AttrStateV { result: triple.0, ctx: triple.1, spacing: triple.2, ..self }
    }

    /// With an attribute in the template.
    pub open spec fn inlined(
        self,
        key: Seq<char>,
        value: Option<Seq<char>>,
        options: TransformOptions,
    ) -> AttrStateV {
        let inlined = inline_v(self.result, key, value, options.omit_quotes, self.spacing);
        AttrStateV { result: inlined.0, spacing: inlined.1, ..self }
    }
}

/// A key that names an event handler.
pub open spec fn is_event_key(key: Seq<char>) -> bool {
    starts_with(key, "on:"@) || (starts_with(key, "on"@) && !key.contains(':'))
}

/// The properties of an object literal in the braces of an attribute.
pub open spec fn container_object(value: JsxValue) -> Option<Vec<Prop>> {
    match value {
        JsxValue::Container { expr: Some(expr), .. } => match expr.kind {
            Kind::Object(props) => Some(props),
            _ => None,
        },
        _ => None,
    }
}

pub fn object_in_container<'a>(value: &'a JsxValue) -> (props: Option<&'a Vec<Prop>>)
    ensures
        match props {
            Some(props) => container_object(*value) == Some(*props),
            None => container_object(*value) is None,
        },
{
    match value {
        JsxValue::Container { expr: Some(expr), .. } => match &expr.kind {
            Kind::Object(props) => Some(props),
            _ => None,
        },
        _ => None,
    }
}

/// An attribute whose value is set once, at run time.
pub open spec fn set_once_v(
    span: Span,
    key: Seq<char>,
    value: ExprV,
    elem: Seq<char>,
    result: ResultV,
    ctx: ContextV,
    options: TransformOptions,
    vocabulary: Vocabulary,
) -> (ResultV, ContextV) {
    let binding = result.binding(elem, key, value);
    (
        result.with_expr(
            set_attr_v(span, binding, value, None, options.hydratable, vocabulary),
        ),
        register_binding(ctx, key, vocabulary),
    )
}

fn emit_runtime_attribute_setter(
    span: Span,
    key: &str,
    value: Rc<Expr>,
    elem_id: &str,
    result: &mut TransformResult,
    context: &mut BlockContext,
    options: &TransformOptions,
    vocabulary: &Vocabulary,
)
    ensures
        (final(result)@, final(context)@) == set_once_v(
            span,
            key@,
            value@,
            elem_id@,
            old(result)@,
            old(context)@,
            *options,
            *vocabulary,
        ),
{
    let binding = result.make_binding(elem_id, key, share(&value));
    register_dynamic_binding_helper(context, &binding, vocabulary);
    result.push_expr(
        generate_set_attr_expr_with_value(
            span,
            &binding,
            value,
            None,
            options.hydratable,
            vocabulary,
        ),
    );
}

/// The text that an expression puts into the template: `Some(None)` stands for
/// an attribute without a value, `None` for one that is set at run time.
pub open spec fn template_value(expr: Expr) -> Option<Option<Seq<char>>> {
    match expr.facts.static_text {
        Some(value) => Some(Some(value@.text())),
        None => match peeled(expr).kind {
            Kind::Str(text) => Some(Some(text@)),
            Kind::Num(number) => Some(Some(number.text@)),
            _ => None,
        },
    }
}

/// A boolean literal.
pub open spec fn bool_of(expr: Expr) -> Option<bool> {
    match peeled(expr).kind {
        Kind::Bool(value) => Some(value),
        _ => None,
    }
}

pub fn value_for_template(expr: &Expr) -> (value: Option<String>)
    ensures
        (match value {
            Some(text) => Some(Some(text@)),
            None => None,
        }) == template_value(*expr),
{
    match &expr.facts.static_text {
        Some(value) => Some(value.as_text()),
        None => match &peel_wrapped_expression(expr).kind {
            Kind::Str(text) => Some(text.clone()),
            Kind::Num(number) => Some(number.text.clone()),
            _ => None,
        },
    }
}

/// The attribute must be kept up to date.
pub open spec fn is_kept_current(key: Seq<char>, expr: Expr, marked: bool) -> bool {
    !marked && (expr.facts.dynamic || ((key == "class"@ || key == "style"@) && !confident(expr)))
}

/// The function that an effect reads an expression through.
pub open spec fn source_v(expr: Expr) -> ExprV {
    match plain_call(expr) {
        Some(callee) => callee@,
        None => thunk_v(no_span(), expr@),
    }
}

/// The function that an effect reads an expression through.
pub fn source_of(expr: &Rc<Expr>) -> (source: Rc<Expr>)
    ensures
        source@ == source_v(**expr),
{
    match callee_of_plain_call(expr) {
        Some(callee) => callee,
        None => thunk(nowhere(), share(expr)),
    }
}

/// `value` and `checked` get an effect of their own, which runs last.
pub open spec fn late_effect_v(
    attr: JsxAttribute,
    expr: Expr,
    elem: Seq<char>,
    state: AttrStateV,
    options: TransformOptions,
    vocabulary: Vocabulary,
) -> AttrStateV {
    let binding = state.result.binding(elem, attr.key@, expr@);
    let setter = set_attr_v(
        attr.span,
        binding,
        el_v("_v$"@),
        None,
        options.hydratable,
        vocabulary,
    );
    AttrStateV {
        result: state.result.with_post_expr(
            call_v(
                no_span(),
                el_v("effect"@),
                seq![source_v(expr), arrow1_stmt_v(no_span(), "_v$"@, setter)],
            ),
        ),
        ctx: register_binding(state.ctx.register("effect"@), attr.key@, vocabulary),
        ..state
    }
}

/// An attribute with an expression that does not go into the template.
pub open spec fn runtime_expr_v(
    attr: JsxAttribute,
    span: Span,
    expr: Expr,
    elem: Seq<char>,
    state: AttrStateV,
    options: TransformOptions,
    vocabulary: Vocabulary,
) -> AttrStateV {
    let key = attr.key@;
    let marked = static_marker_anywhere(state.ctx.source, span, options.static_marker@);
    let current = is_kept_current(key, expr, marked);
    if (key == "value"@ || key == "checked"@) && current && wraps_effects(options) {
        late_effect_v(attr, expr, elem, state, options, vocabulary)
    } else if current {
        state.with_result(
            state.result.with_binding(state.result.binding(elem, key, expr@)),
        )
    } else {
        state.with(
            set_once_v(
                attr.span,
                key,
                cloned_v(expr, marked),
                elem,
                state.result,
                state.ctx,
                options,
                vocabulary,
            ),
        )
    }
}

fn push_runtime_expr(
    attr: &JsxAttribute,
    span: Span,
    expr: &Rc<Expr>,
    elem_id: &str,
    result: &mut TransformResult,
    context: &mut BlockContext,
    options: &TransformOptions,
    vocabulary: &Vocabulary,
)
    ensures
        forall|placeholder: bool, spacing: bool|
            (AttrStateV {
                result: final(result)@,
                ctx: final(context)@,
                placeholder,
                spacing,
            }) == #[trigger] runtime_expr_v(
                *attr,
                span,
                **expr,
                elem_id@,
                AttrStateV { result: old(result)@, ctx: old(context)@, placeholder, spacing },
                *options,
                *vocabulary,
            ),
{
    let key = attr.key.as_str();
    let marked = context.has_static_marker_comment_anywhere(span, options.static_marker);
    let current = !marked && (expr.facts.dynamic || ((same(key, "class") || same(key, "style"))
        && !is_confident_static_expression(expr)));
    if (same(key, "value") || same(key, "checked")) && current && effect_wrapper_enabled(options) {
        let binding = result.make_binding(elem_id, key, share(expr));
        let source = source_of(expr);
        context.register_helper("effect");
        register_dynamic_binding_helper(context, &binding, vocabulary);
        let setter = generate_set_attr_expr_with_value(
            attr.span,
            &binding,
            el("_v$"),
            None,
            options.hydratable,
            vocabulary,
        );
        let callback = arrow1_stmt(nowhere(), "_v$", setter);
        result.push_post_expr(call2(nowhere(), el("effect"), source, callback));
        return;
    }
    if current {
        result.bind(elem_id, key, share(expr));
    } else {
        emit_runtime_attribute_setter(
            attr.span,
            key,
            cloned(expr, marked),
            elem_id,
            result,
            context,
            options,
            vocabulary,
        );
    }
}

/// An attribute of no special kind.
#[verifier::opaque]
pub open spec fn regular_v(
    attr: JsxAttribute,
    elem: Seq<char>,
    state: AttrStateV,
    options: TransformOptions,
    vocabulary: Vocabulary,
) -> AttrStateV {
    let key = attr.key@;
    let is_child = vocabulary.is_child_property(key);
    match attr.value {
        JsxValue::Str { decoded, .. } => if is_child {
            state.with(
                set_once_v(
                    attr.span,
                    key,
                    str_v(attr.span, decoded@),
                    elem,
                    state.result,
                    state.ctx,
                    options,
                    vocabulary,
                ),
            )
        } else {
            state.inlined(vocabulary.written(key), Some(decoded@), options)
        },
        JsxValue::Container { span, expr: Some(expr), .. } => if !is_child && template_value(
            *expr,
        ) is Some {
            state.inlined(vocabulary.written(key), template_value(*expr)->0, options)
        } else if !is_child && bool_of(*expr) is Some {
            if bool_of(*expr)->0 {
                state.inlined(vocabulary.written(key), None, options)
            } else {
                state
            }
        } else {
            runtime_expr_v(attr, span, *expr, elem, state, options, vocabulary)
        },
        JsxValue::Absent => if is_child {
            state.with(
                set_once_v(
                    attr.span,
                    key,
                    bool_v(attr.span, true),
                    elem,
                    state.result,
                    state.ctx,
                    options,
                    vocabulary,
                ),
            )
        } else {
            state.inlined(key, None, options)
        },
        _ => state,
    }
}

/// A text that an effect keeps up to date in a placeholder.
pub open spec fn text_content_v(attr: JsxAttribute, expr: Expr, elem: Seq<char>, state: AttrStateV) -> AttrStateV {
    let uid = state.ctx.uid("el$"@);
    let declared = state.result.with_declaration(
        PatternV::Ident(uid.1),
        mem_v(el_v(elem), "firstChild"@),
    );
    AttrStateV {
        result: declared.with_binding(declared.binding(uid.1, attr.key@, expr@)),
        ctx: uid.0,
        placeholder: true,
        ..state
    }
}

/// The text content of an element without children is kept up to date.
pub open spec fn is_live_text(
    attr: JsxAttribute,
    has_children: bool,
    source: Seq<char>,
    options: TransformOptions,
) -> bool {
    attr.key@ == "textContent"@ && match attr.value {
        JsxValue::Container { span, expr: Some(expr), .. } => !has_children
            && !static_marker_anywhere(source, span, options.static_marker@) && expr.facts.dynamic,
        _ => false,
    }
}

/// The attributes behind the class and style ones.
#[verifier::opaque]
pub open spec fn late_attribute_v(
    attr: JsxAttribute,
    elem: Option<Seq<char>>,
    has_children: bool,
    state: AttrStateV,
    options: TransformOptions,
    vocabulary: Vocabulary,
) -> AttrStateV {
    let key = attr.key@;
    let id = elem->0;
    if starts_with(key, "style:"@) {
        state.with(style_namespace_v(attr, id, state.result, state.ctx))
    } else if key == "style"@ {
        state.with_spaced(
            style_v(attr, elem, state.result, state.ctx, options, state.spacing),
        )
    } else if is_live_text(attr, has_children, state.ctx.source, options) {
        text_content_v(attr, *attr.value->expr->0, id, state)
    } else if key == "innerHTML"@ || key == "textContent"@ || key == "innerText"@ {
        state.with(inner_content_v(attr, id, state.result, state.ctx, options))
    } else {
        regular_v(attr, id, state, options, vocabulary)
    }
}

/// A single attribute.
#[verifier::opaque]
pub open spec fn attribute_v(
    attr: JsxAttribute,
    elem: Option<Seq<char>>,
    has_children: bool,
    state: AttrStateV,
    options: TransformOptions,
    vocabulary: Vocabulary,
) -> AttrStateV {
    let key = attr.key@;
    let id = elem->0;
    if options.hydratable && key == "$ServerOnly"@ {
        state.with_result(ResultV { skip_template: true, ..state.result })
    } else if state.result.is_svg && key == "xmlns"@ {
        state
    } else if key == "ref"@ {
        state.with(ref_v(attr, id, state.result, state.ctx))
    } else if is_event_key(key) && !(attr.value is Str) {
        state.with(event_v(attr, id, state.result, state.ctx, options, vocabulary))
    } else if starts_with(key, "use:"@) {
        state.with(directive_v(attr, id, state.result, state.ctx))
    } else if starts_with(key, "prop:"@) {
        state.with_result(prop_v(attr, id, state.result))
    } else if starts_with(key, "bool:"@) {
        state.with_spaced(
            bool_attr_v(attr, id, state.result, state.ctx, options, state.spacing),
        )
    } else if starts_with(key, "class:"@) {
        state.with_result(class_namespace_v(attr, id, state.result))
    } else if key == "classList"@ && container_object(attr.value) is Some {
        let taken = class_list_v(
            (container_object(attr.value)->0)@,
            id,
            state.result,
            state.ctx,
        );
        let next = state.with((taken.1, taken.2));
        if taken.0 {
            next
        } else {
            late_attribute_v(attr, elem, has_children, next, options, vocabulary)
        }
    } else if key == "class"@ && container_object(attr.value) is Some {
        let taken = class_object_v(
            (container_object(attr.value)->0)@,
            id,
            state.result,
            options.omit_quotes,
            state.spacing,
        );
        let next = AttrStateV { result: taken.1, spacing: taken.2, ..state };
        if taken.0 {
            next
        } else {
            late_attribute_v(attr, elem, has_children, next, options, vocabulary)
        }
    } else {
        late_attribute_v(attr, elem, has_children, state, options, vocabulary)
    }
}

/// An attribute of no special kind needs the element at run time.
pub open spec fn regular_needs_id(attr: JsxAttribute, vocabulary: Vocabulary) -> bool {
    let is_child = vocabulary.is_child_property(attr.key@);
    match attr.value {
        JsxValue::Str { .. } => is_child,
        JsxValue::Container { expr: Some(expr), .. } => is_child || (template_value(*expr) is None
            && bool_of(*expr) is None),
        JsxValue::Absent => is_child,
        _ => false,
    }
}

/// An attribute needs the element at run time.
#[verifier::opaque]
pub open spec fn needs_id(
    attr: JsxAttribute,
    is_svg: bool,
    options: TransformOptions,
    vocabulary: Vocabulary,
) -> bool {
    let key = attr.key@;
    if options.hydratable && key == "$ServerOnly"@ {
        false
    } else if is_svg && key == "xmlns"@ {
        false
    } else if key == "ref"@ || (is_event_key(key) && !(attr.value is Str)) || starts_with(
        key,
        "use:"@,
    ) || starts_with(key, "prop:"@) || starts_with(key, "bool:"@) || starts_with(key, "class:"@)
        || starts_with(key, "style:"@) {
        true
    } else if (key == "classList"@ || key == "class"@) && container_object(attr.value) is Some {
        true
    } else if key == "style"@ {
        style_needs_id(attr, options)
    } else if key == "innerHTML"@ || key == "textContent"@ || key == "innerText"@ {
        true
    } else {
        regular_needs_id(attr, vocabulary)
    }
}

fn transform_regular(
    attr: &JsxAttribute,
    elem_id: &Option<String>,
    result: &mut TransformResult,
    context: &mut BlockContext,
    options: &TransformOptions,
    vocabulary: &Vocabulary,
    needs_spacing: &mut bool,
)
    requires
        elem_id is Some || !regular_needs_id(*attr, *vocabulary),
    ensures
        forall|placeholder: bool|
            (AttrStateV {
                result: final(result)@,
                ctx: final(context)@,
                placeholder,
                spacing: *final(needs_spacing),
            }) == #[trigger] regular_v(
                *attr,
                opt(*elem_id)->0,
                AttrStateV {
                    result: old(result)@,
                    ctx: old(context)@,
                    placeholder,
                    spacing: *old(needs_spacing),
                },
                *options,
                *vocabulary,
            ),
{
    proof {
        reveal(regular_v);
    }
    let key = attr.key.as_str();
    let is_child = vocabulary.child_property(key);
    let id = match elem_id {
        Some(id) => id.as_str(),
        None => "",
    };
    match &attr.value {
        JsxValue::Str { decoded, .. } => {
            if is_child {
                let value = string(attr.span, decoded.as_str());
                emit_runtime_attribute_setter(
                    attr.span,
                    key,
                    value,
                    id,
                    result,
                    context,
                    options,
                    vocabulary,
                );
            } else {
                inline_attribute_on_template(
                    result,
                    vocabulary.written_name(key),
                    Some(decoded.as_str()),
                    options.omit_quotes,
                    needs_spacing,
                );
            }
        },
        JsxValue::Container { span, expr: Some(expr), .. } => {
            if !is_child {
                if let Some(text) = value_for_template(expr) {
                    inline_attribute_on_template(
                        result,
                        vocabulary.written_name(key),
                        Some(text.as_str()),
                        options.omit_quotes,
                        needs_spacing,
                    );
                    return;
                }
                if let Kind::Bool(value) = &peel_wrapped_expression(expr).kind {
                    if *value {
                        inline_attribute_on_template(
                            result,
                            vocabulary.written_name(key),
                            None,
                            options.omit_quotes,
                            needs_spacing,
                        );
                    }
                    return;
                }
            }
            push_runtime_expr(attr, *span, expr, id, result, context, options, vocabulary);
        },
        JsxValue::Absent => {
            if is_child {
                let value = boolean(attr.span, true);
                emit_runtime_attribute_setter(
                    attr.span,
                    key,
                    value,
                    id,
                    result,
                    context,
                    options,
                    vocabulary,
                );
            } else {
                inline_attribute_on_template(result, key, None, options.omit_quotes, needs_spacing);
            }
        },
        _ => {},
    }
}

fn live_text(
    attr: &JsxAttribute,
    has_children: bool,
    context: &BlockContext,
    options: &TransformOptions,
) -> (expr: Option<Rc<Expr>>)
    ensures
        match expr {
            Some(expr) => is_live_text(*attr, has_children, context@.source, *options)
                && attr.value->expr == Some(expr),
            None => !is_live_text(*attr, has_children, context@.source, *options),
        },
{
    if !same(attr.key.as_str(), "textContent") {
        return None;
    }
    match &attr.value {
        JsxValue::Container { span, expr: Some(expr), .. } => {
            if !has_children && !context.has_static_marker_comment_anywhere(
                *span,
                options.static_marker,
            ) && expr.facts.dynamic {
                Some(share(expr))
            } else {
                None
            }
        },
        _ => None,
    }
}

fn transform_late_attribute(
    attr: &JsxAttribute,
    elem_id: &Option<String>,
    result: &mut TransformResult,
    context: &mut BlockContext,
    options: &TransformOptions,
    vocabulary: &Vocabulary,
    has_children: bool,
    needs_placeholder: &mut bool,
    needs_spacing: &mut bool,
)
    requires
        elem_id is Some || (!starts_with(attr.key@, "style:"@) && (if attr.key@ == "style"@ {
            !style_needs_id(*attr, *options)
        } else {
            attr.key@ != "innerHTML"@ && attr.key@ != "textContent"@ && attr.key@ != "innerText"@
                && !regular_needs_id(*attr, *vocabulary)
        })),
    ensures
        (AttrStateV {
            result: final(result)@,
            ctx: final(context)@,
            placeholder: *final(needs_placeholder),
            spacing: *final(needs_spacing),
        }) == late_attribute_v(
            *attr,
            opt(*elem_id),
            has_children,
            AttrStateV {
                result: old(result)@,
                ctx: old(context)@,
                placeholder: *old(needs_placeholder),
                spacing: *old(needs_spacing),
            },
            *options,
            *vocabulary,
        ),
{
    proof {
        reveal(late_attribute_v);
    }
    let key = attr.key.as_str();
    let id = match elem_id {
        Some(id) => id.as_str(),
        None => "",
    };
    if has_prefix(key, "style:") {
        transform_style_namespace(attr, id, result, context);
        return;
    }
    if same(key, "style") {
        transform_style(attr, elem_id, result, context, options, needs_spacing);
        return;
    }
    if let Some(expr) = live_text(attr, has_children, context, options) {
        let text_id = context.generate_uid("el$");
        *needs_placeholder = true;
        result.push_declaration(
            Pattern::Ident(text_id.clone()),
            mem(el(id), "firstChild"),
        );
        result.bind(text_id.as_str(), key, expr);
        return;
    }
    if same(key, "innerHTML") || same(key, "textContent") || same(key, "innerText") {
        transform_inner_content(attr, id, result, context, options);
        return;
    }
    transform_regular(attr, elem_id, result, context, options, vocabulary, needs_spacing);
}

/// Transforms a single attribute.
pub fn transform_attribute(
    attr: &JsxAttribute,
    elem_id: &Option<String>,
    result: &mut TransformResult,
    context: &mut BlockContext,
    options: &TransformOptions,
    vocabulary: &Vocabulary,
    has_children: bool,
    needs_placeholder: &mut bool,
    needs_spacing: &mut bool,
)
    requires
        elem_id is Some || !needs_id(*attr, old(result)@.is_svg, *options, *vocabulary),
    ensures
        (AttrStateV {
            result: final(result)@,
            ctx: final(context)@,
            placeholder: *final(needs_placeholder),
            spacing: *final(needs_spacing),
        }) == attribute_v(
            *attr,
            opt(*elem_id),
            has_children,
            AttrStateV {
                result: old(result)@,
                ctx: old(context)@,
                placeholder: *old(needs_placeholder),
                spacing: *old(needs_spacing),
            },
            *options,
            *vocabulary,
        ),
{
    proof {
        reveal(attribute_v);
        reveal(needs_id);
    }
    let key = attr.key.as_str();
    let id = match elem_id {
        Some(id) => id.as_str(),
        None => "",
    };
    let is_string = match &attr.value {
        JsxValue::Str { .. } => true,
        _ => false,
    };
    if options.hydratable && same(key, "$ServerOnly") {
        result.set_skip_template();
        return;
    }
    if result.svg() && same(key, "xmlns") {
        return;
    }
    if same(key, "ref") {
        transform_ref(attr, id, result, context);
        return;
    }
    if (has_prefix(key, "on:") || (has_prefix(key, "on") && !has_char(key, ':'))) && !is_string {
        transform_event(attr, id, result, context, options, vocabulary);
        return;
    }
    if has_prefix(key, "use:") {
        transform_directive(attr, id, result, context);
        return;
    }
    if has_prefix(key, "prop:") {
        transform_prop(attr, id, result);
        return;
    }
    if has_prefix(key, "bool:") {
        transform_bool(attr, id, result, context, options, needs_spacing);
        return;
    }
    if has_prefix(key, "class:") {
        transform_class_namespace(attr, id, result);
        return;
    }
    if same(key, "classList") {
        if let Some(props) = object_in_container(&attr.value) {
            if transform_class_list_object(props, id, result, context) {
                return;
            }
        }
    } else if same(key, "class") {
        if let Some(props) = object_in_container(&attr.value) {
            if transform_class_object(props, id, result, options.omit_quotes, needs_spacing) {
                return;
            }
        }
    }
    transform_late_attribute(
        attr,
        elem_id,
        result,
        context,
        options,
        vocabulary,
        has_children,
        needs_placeholder,
        needs_spacing,
    );
}

} // verus!
