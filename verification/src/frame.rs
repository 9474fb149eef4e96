//! What a transform leaves as it was.

use crate::ast::{JsxAttribute, JsxValue, Kind, Prop};
use crate::attribute::{attribute_v, late_attribute_v, regular_v, AttrStateV};
use crate::attributes::inline_v;
use crate::handlers::{directive_v, event_v, ref_v};
use crate::ir::{ContextV, ResultV};
use crate::marker::static_marker;
use crate::options::TransformOptions;
use crate::properties::{
    bool_attr_v, class_list_v, class_object_v, class_props_v, inner_content_v, style_namespace_v,
};
use crate::style::{inline_styles_v, kept_v, singles_v, style_object_v, style_v};
use crate::text::join_v;
use crate::vocabulary::Vocabulary;
use vstd::prelude::*;

verus! {

/// Two results are of the same element.
pub open spec fn same_element(a: ResultV, b: ResultV) -> bool {
    &&& a.span == b.span
    &&& a.id == b.id
    &&& a.is_svg == b.is_svg
    &&& a.tag_name == b.tag_name
    &&& a.template_is_svg == b.template_is_svg
    &&& a.has_custom_element == b.has_custom_element
    &&& a.is_import_node == b.is_import_node
    &&& a.output_kind == b.output_kind
    &&& a.text == b.text
    &&& a.needs_memo == b.needs_memo
    &&& a.child_results == b.child_results
    &&& a.universal_output == b.universal_output
}

/// Two contexts are of the same file and mode.
pub open spec fn same_setting(a: ContextV, b: ContextV) -> bool {
    &&& a.hydratable == b.hydratable
    &&& a.effect_wrapper_enabled == b.effect_wrapper_enabled
    &&& a.base_module == b.base_module
    &&& a.dom_module == b.dom_module
    &&& a.universal_module == b.universal_module
    &&& a.source == b.source
    &&& a.constants == b.constants
}

proof fn class_props_keep(
    props: Seq<Prop>,
    elem: Seq<char>,
    result: ResultV,
    classes: Seq<Seq<char>>,
)
    ensures
        same_element(class_props_v(props, elem, result, classes).1, result),
    decreases props.len(),
{
    if props.len() > 0 {
        if let Some((name, value)) = crate::properties::class_prop(props[0]) {
            let rest = props.skip(1);
            let bound = result.with_binding(result.binding(elem, "class:"@ + name, value@));
            let toggled = result.with_expr(
                crate::attributes::class_toggle_v(
                    elem,
                    name,
                    crate::make::bool_cast_v(crate::ast::no_span(), value@),
                ),
            );
            class_props_keep(rest, elem, result, classes.push(name));
            class_props_keep(rest, elem, result, classes);
            class_props_keep(rest, elem, bound, classes);
            class_props_keep(rest, elem, toggled, classes);
        }
    }
}

proof fn class_list_keeps(props: Seq<Prop>, elem: Seq<char>, result: ResultV, ctx: ContextV)
    ensures
        same_element(class_list_v(props, elem, result, ctx).1, result),
        same_setting(class_list_v(props, elem, result, ctx).2, ctx),
    decreases props.len(),
{
    if props.len() > 0 {
        if let Some((name, value)) = crate::properties::class_prop(props[0]) {
            let rest = props.skip(1);
            let no_span = crate::ast::no_span();
            let on = result.with_expr(
                crate::attributes::class_toggle_v(
                    elem,
                    name,
                    crate::make::bool_v(no_span, true),
                ),
            );
            let toggled = crate::attributes::class_toggle_v(
                elem,
                name,
                crate::make::bool_cast_v(no_span, value@),
            );
            let effect = result.with_expr(
                crate::make::call_v(
                    no_span,
                    crate::attributes::el_v("effect"@),
                    seq![crate::make::thunk_v(no_span, toggled)],
                ),
            );
            class_list_keeps(rest, elem, on, ctx);
            class_list_keeps(rest, elem, result, ctx);
            class_list_keeps(rest, elem, effect, ctx.register("effect"@));
            class_list_keeps(rest, elem, result.with_expr(toggled), ctx);
        }
    }
}

proof fn singles_keep(
    props: Seq<Prop>,
    marked: bool,
    elem: Seq<char>,
    result: ResultV,
    source: Seq<char>,
    marker: Seq<char>,
)
    ensures
        same_element(singles_v(props, marked, elem, result, source, marker), result),
    decreases props.len(),
{
    if props.len() > 0 {
        singles_keep(props.drop_last(), marked, elem, result, source, marker);
    }
}

proof fn style_object_keeps(
    attr: JsxAttribute,
    props: Seq<Prop>,
    marked: bool,
    remainder_dynamic: bool,
    elem: Seq<char>,
    result: ResultV,
    ctx: ContextV,
    options: TransformOptions,
    spacing: bool,
)
    ensures
        same_element(
            style_object_v(
                attr,
                props,
                marked,
                remainder_dynamic,
                elem,
                result,
                ctx,
                options,
                spacing,
            ).0,
            result,
        ),
        same_setting(
            style_object_v(
                attr,
                props,
                marked,
                remainder_dynamic,
                elem,
                result,
                ctx,
                options,
                spacing,
            ).1,
            ctx,
        ),
{
    let inline = inline_styles_v(props);
    let inlined = if inline.len() > 0 {
        inline_v(result, "style"@, Some(join_v(inline, ";"@)), options.omit_quotes, spacing).0
    } else {
        result
    };
    singles_keep(kept_v(props), marked, elem, inlined, ctx.source, options.static_marker@);
}

proof fn style_keeps(
    attr: JsxAttribute,
    elem: Option<Seq<char>>,
    result: ResultV,
    ctx: ContextV,
    options: TransformOptions,
    spacing: bool,
)
    ensures
        same_element(style_v(attr, elem, result, ctx, options, spacing).0, result),
        same_setting(style_v(attr, elem, result, ctx, options, spacing).1, ctx),
{
    reveal(style_v);
    match &attr.value {
        JsxValue::Container { span, expr: Some(expr), remainder_dynamic } => match &expr.kind {
            Kind::Object(props) => {
                style_object_keeps(
                    attr,
                    props@,
                    static_marker(ctx.source, *span, options.static_marker@),
                    *remainder_dynamic,
                    elem->0,
                    result,
                    ctx,
                    options,
                    spacing,
                );
            },
            _ => {},
        },
        _ => {},
    }
}

proof fn late_attribute_keeps(
    attr: JsxAttribute,
    elem: Option<Seq<char>>,
    has_children: bool,
    state: AttrStateV,
    options: TransformOptions,
    vocabulary: Vocabulary,
)
    ensures
        same_element(
            late_attribute_v(attr, elem, has_children, state, options, vocabulary).result,
            state.result,
        ),
        same_setting(
            late_attribute_v(attr, elem, has_children, state, options, vocabulary).ctx,
            state.ctx,
        ),
{
    reveal(late_attribute_v);
    style_keeps(attr, elem, state.result, state.ctx, options, state.spacing);
    assert(same_element(
        style_namespace_v(attr, elem->0, state.result, state.ctx).0,
        state.result,
    ) && same_setting(style_namespace_v(attr, elem->0, state.result, state.ctx).1, state.ctx)) by {
        reveal(style_namespace_v);
    }
    assert(same_element(
        inner_content_v(attr, elem->0, state.result, state.ctx, options).0,
        state.result,
    ) && same_setting(
        inner_content_v(attr, elem->0, state.result, state.ctx, options).1,
        state.ctx,
    )) by {
        reveal(inner_content_v);
    }
    assert(same_element(
        regular_v(attr, elem->0, state, options, vocabulary).result,
        state.result,
    ) && same_setting(regular_v(attr, elem->0, state, options, vocabulary).ctx, state.ctx)) by {
        reveal(regular_v);
    }
}

/// An attribute leaves the element and the setting as they were.
pub proof fn attribute_keeps(
    attr: JsxAttribute,
    elem: Option<Seq<char>>,
    has_children: bool,
    state: AttrStateV,
    options: TransformOptions,
    vocabulary: Vocabulary,
)
    ensures
        same_element(
            attribute_v(attr, elem, has_children, state, options, vocabulary).result,
            state.result,
        ),
        same_setting(
            attribute_v(attr, elem, has_children, state, options, vocabulary).ctx,
            state.ctx,
        ),
{
    reveal(attribute_v);
    let id = elem->0;
    let result = state.result;
    let ctx = state.ctx;
    assert(same_element(ref_v(attr, id, result, ctx).0, result) && same_setting(
        ref_v(attr, id, result, ctx).1,
        ctx,
    )) by {
        reveal(ref_v);
    }
    assert(same_element(event_v(attr, id, result, ctx, options, vocabulary).0, result)
        && same_setting(event_v(attr, id, result, ctx, options, vocabulary).1, ctx)) by {
        reveal(event_v);
    }
    assert(same_element(directive_v(attr, id, result, ctx).0, result) && same_setting(
        directive_v(attr, id, result, ctx).1,
        ctx,
    )) by {
        reveal(directive_v);
    }
    assert(same_element(bool_attr_v(attr, id, result, ctx, options, state.spacing).0, result)
        && same_setting(bool_attr_v(attr, id, result, ctx, options, state.spacing).1, ctx)) by {
        reveal(bool_attr_v);
    }
    if let Some(props) = crate::attribute::container_object(attr.value) {
        class_list_keeps(props@, id, result, ctx);
        let taken = class_list_v(props@, id, result, ctx);
        let next = state.with((taken.1, taken.2));
        late_attribute_keeps(attr, elem, has_children, next, options, vocabulary);
        class_props_keep(props@, id, result, seq![]);
        let object = class_object_v(props@, id, result, options.omit_quotes, state.spacing);
        assert(same_element(object.1, result)) by {
            reveal(class_object_v);
        }
        let next = AttrStateV { result: object.1, spacing: object.2, ..state };
        late_attribute_keeps(attr, elem, has_children, next, options, vocabulary);
    }
    late_attribute_keeps(attr, elem, has_children, state, options, vocabulary);
}

} // verus!
