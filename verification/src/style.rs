//! The style attribute.

use crate::ast::{
    group_values, no_span, nowhere, prop_values, Expr, ExprV, JsxAttribute, JsxValue, Kind, Prop,
};
use crate::attributes::{
    cloned, cloned_v, effect_wrapper_enabled, el, el_v, inline_attribute_on_template, inline_v,
    raw_template_v, set_style_property_expr, set_style_v, template_literal_expr_from_raw,
    wraps_effects,
};
use crate::copy::copied_prop;
use crate::ir::{opt, BindingV, BlockContext, ContextV, DynamicBinding, ResultV, TransformResult};
use crate::make::{call2, call_v, copied, object, object_v};
use crate::marker::{static_marker, static_marker_anywhere};
use crate::options::TransformOptions;
use crate::outside::same;
use crate::properties::{key_text, text_of_key};
use crate::statics::{
    confident, confident_props, is_confident_static_expression,
};
use crate::text::{camel_to_kebab, join, join_v, joined, kebab_case, texts};
use std::rc::Rc;
use vstd::prelude::*;

verus! {

broadcast use group_values;

/// What becomes of a property of a style object.
pub ghost enum StylePropV {
    /// It goes into the template.
    Inline(Seq<char>),
    /// It has no effect.
    Dropped,
    /// It stays.
    Kept,
}

pub open spec fn style_prop_v(prop: Prop) -> StylePropV {
    match prop {
        Prop::Spread { .. } => StylePropV::Kept,
        Prop::Named { key, value, computed, .. } => if computed {
            StylePropV::Kept
        } else {
            match value.kind {
                Kind::Str(text) => match key_text(key) {
                    Some(name) => StylePropV::Inline(kebab_case(name) + ":"@ + text@),
                    None => StylePropV::Kept,
                },
                Kind::Num(number) => match key_text(key) {
                    Some(name) => StylePropV::Inline(kebab_case(name) + ":"@ + number.text@),
                    None => StylePropV::Kept,
                },
                Kind::Null => StylePropV::Dropped,
                Kind::Ident { name, .. } => if name@ == "undefined"@ {
                    StylePropV::Dropped
                } else {
                    StylePropV::Kept
                },
                _ => StylePropV::Kept,
            }
        },
    }
}

/// The properties that go into the template.
pub open spec fn inline_styles_v(props: Seq<Prop>) -> Seq<Seq<char>>
    decreases props.len(),
{
    if props.len() == 0 {
        seq![]
    } else {
        let head = inline_styles_v(props.drop_last());
        match style_prop_v(props.last()) {
            StylePropV::Inline(text) => head.push(text),
            _ => head,
        }
    }
}

/// The properties that stay.
pub open spec fn kept_v(props: Seq<Prop>) -> Seq<Prop>
    decreases props.len(),
{
    if props.len() == 0 {
        seq![]
    } else {
        let head = kept_v(props.drop_last());
        match style_prop_v(props.last()) {
            StylePropV::Kept => head.push(props.last()),
            _ => head,
        }
    }
}

enum StyleProp {
    Inline(String),
    Dropped,
    Kept,
}

fn style_prop(prop: &Prop) -> (kind: StyleProp)
    ensures
        match kind {
            StyleProp::Inline(text) => style_prop_v(*prop) == StylePropV::Inline(text@),
            StyleProp::Dropped => style_prop_v(*prop) is Dropped,
            StyleProp::Kept => style_prop_v(*prop) is Kept,
        },
{
    match prop {
        Prop::Spread { .. } => StyleProp::Kept,
        Prop::Named { key, value, computed, .. } => {
            if *computed {
                return StyleProp::Kept;
            }
            match &value.kind {
                Kind::Str(text) => match text_of_key(key) {
                    Some(name) => StyleProp::Inline(style_text(name, text.as_str())),
                    None => StyleProp::Kept,
                },
                Kind::Num(number) => match text_of_key(key) {
                    Some(name) => StyleProp::Inline(style_text(name, number.text.as_str())),
                    None => StyleProp::Kept,
                },
                Kind::Null => StyleProp::Dropped,
                Kind::Ident { name, .. } => if same(name.as_str(), "undefined") {
                    StyleProp::Dropped
                } else {
                    StyleProp::Kept
                },
                _ => StyleProp::Kept,
            }
        },
    }
}

fn style_text(name: &str, value: &str) -> (text: String)
    ensures
        text@ == kebab_case(name@) + ":"@ + value@,
{
    let mut text = camel_to_kebab(name);
    text.append(":");
    text.append(value);
    text
}

/// Takes a style object apart.
pub fn split_style(props: &Vec<Prop>) -> (parts: (Vec<String>, Vec<Prop>))
    ensures
        texts(parts.0@) == inline_styles_v(props@),
        parts.1@ == kept_v(props@),
{
    let mut inline: Vec<String> = Vec::new();
    let mut kept: Vec<Prop> = Vec::new();
    let mut i: usize = 0;
    proof {
        assert(texts(inline@) =~= inline_styles_v(props@.take(0)));
        assert(kept@ =~= kept_v(props@.take(0)));
    }
    while i < props.len()
        invariant
            i <= props.len(),
            texts(inline@) == inline_styles_v(props@.take(i as int)),
            kept@ == kept_v(props@.take(i as int)),
        decreases props.len() - i,
    {
        proof {
            assert(props@.take(i + 1).drop_last() =~= props@.take(i as int));
            assert(props@.take(i + 1).last() == props@[i as int]);
        }
        match style_prop(&props[i]) {
            StyleProp::Inline(text) => {
                let ghost before = texts(inline@);
                inline.push(text);
                proof {
                    assert(texts(inline@) =~= before.push(text@));
                }
            },
            StyleProp::Dropped => {},
            StyleProp::Kept => kept.push(copied_prop(&props[i])),
        }
        i = i + 1;
    }
    proof {
        assert(props@.take(i as int) =~= props@);
    }
    (inline, kept)
}

/// Every property can be set by itself.
pub open spec fn can_split(props: Seq<Prop>) -> bool {
    forall|i: int|
        0 <= i < props.len() ==> match #[trigger] props[i] {
            Prop::Named { computed, .. } => !computed,
            Prop::Spread { .. } => false,
        }
}

fn splits(props: &Vec<Prop>) -> (yes: bool)
    ensures
        yes == can_split(props@),
{
    let mut i: usize = 0;
    while i < props.len()
        invariant
            i <= props.len(),
            forall|k: int|
                0 <= k < i ==> match #[trigger] props@[k] {
                    Prop::Named { computed, .. } => !computed,
                    Prop::Spread { .. } => false,
                },
        decreases props.len() - i,
    {
        let simple = match &props[i] {
            Prop::Named { computed, .. } => !*computed,
            Prop::Spread { .. } => false,
        };
        if !simple {
            proof {
                assert(!match props@[i as int] {
                    Prop::Named { computed, .. } => !computed,
                    Prop::Spread { .. } => false,
                });
            }
            return false;
        }
        i = i + 1;
    }
    true
}

/// A property with a name of its own: the name, the value, and whether an
/// effect keeps it up to date.
pub open spec fn single_v(prop: Prop, marked: bool, source: Seq<char>, marker: Seq<char>) -> Option<
    (Seq<char>, ExprV, bool),
> {
    match prop {
        Prop::Spread { .. } => None,
        Prop::Named { span, key, value, .. } => match key_text(key) {
            None => None,
            Some(name) => {
                let marked = marked || static_marker_anywhere(source, span, marker);
                Some((name, cloned_v(*value, marked), !marked && value.facts.dynamic))
            },
        },
    }
}

fn single(prop: &Prop, marked: bool, context: &BlockContext, marker: &str) -> (single: Option<
    (String, Rc<Expr>, bool),
>)
    ensures
        (match single {
            Some((name, value, dynamic)) => Some((name@, value@, dynamic)),
            None => None,
        }) == single_v(*prop, marked, context@.source, marker@),
{
    match prop {
        Prop::Spread { .. } => None,
        Prop::Named { span, key, value, .. } => match text_of_key(key) {
            None => None,
            Some(name) => {
                let marked = marked || context.has_static_marker_comment_anywhere(*span, marker);
                Some((copied(name), cloned(value, marked), !marked && value.facts.dynamic))
            },
        },
    }
}

/// Some property needs no effect.
pub open spec fn has_static_single(
    props: Seq<Prop>,
    marked: bool,
    source: Seq<char>,
    marker: Seq<char>,
) -> bool {
    exists|i: int|
        0 <= i < props.len() && match single_v(#[trigger] props[i], marked, source, marker) {
            Some((_, _, dynamic)) => !dynamic,
            None => false,
        }
}

/// The properties set one by one.
pub open spec fn singles_v(
    props: Seq<Prop>,
    marked: bool,
    elem: Seq<char>,
    result: ResultV,
    source: Seq<char>,
    marker: Seq<char>,
) -> ResultV
    decreases props.len(),
{
    if props.len() == 0 {
        result
    } else {
        let head = singles_v(props.drop_last(), marked, elem, result, source, marker);
        match single_v(props.last(), marked, source, marker) {
            None => head,
            Some((name, value, dynamic)) => if dynamic {
                head.with_binding(head.binding(elem, "style:"@ + name, value))
            } else {
                head.with_expr(set_style_v(elem, name, value))
            },
        }
    }
}

fn has_static(props: &Vec<Prop>, marked: bool, context: &BlockContext, marker: &str) -> (yes: bool)
    ensures
        yes == has_static_single(props@, marked, context@.source, marker@),
{
    let mut i: usize = 0;
    while i < props.len()
        invariant
            i <= props.len(),
            forall|k: int|
                0 <= k < i ==> !match single_v(
                    #[trigger] props@[k],
                    marked,
                    context@.source,
                    marker@,
                ) {
                    Some((_, _, dynamic)) => !dynamic,
                    None => false,
                },
        decreases props.len() - i,
    {
        if let Some((_, _, dynamic)) = single(&props[i], marked, context, marker) {
            if !dynamic {
                proof {
                    let p = props@[i as int];
                    assert(single_v(p, marked, context@.source, marker@) is Some);
                }
                return true;
            }
        }
        i = i + 1;
    }
    false
}

fn push_singles(
    props: &Vec<Prop>,
    marked: bool,
    elem_id: &str,
    result: &mut TransformResult,
    context: &BlockContext,
    marker: &str,
)
    ensures
        final(result)@ == singles_v(
            props@,
            marked,
            elem_id@,
            old(result)@,
            context@.source,
            marker@,
        ),
{
    let mut i: usize = 0;
    while i < props.len()
        invariant
            i <= props.len(),
            result@ == singles_v(
                props@.take(i as int),
                marked,
                elem_id@,
                old(result)@,
                context@.source,
                marker@,
            ),
        decreases props.len() - i,
    {
        proof {
            assert(props@.take(i + 1).drop_last() =~= props@.take(i as int));
            assert(props@.take(i + 1).last() == props@[i as int]);
        }
        if let Some((name, value, dynamic)) = single(&props[i], marked, context, marker) {
            if dynamic {
                result.bind(elem_id, joined("style:", name.as_str()).as_str(), value);
            } else {
                result.push_expr(set_style_property_expr(elem_id, name.as_str(), value));
            }
        }
        i = i + 1;
    }
    proof {
        assert(props@.take(i as int) =~= props@);
    }
}

/// The whole style set at once.
pub open spec fn whole_style_v(
    elem: Seq<char>,
    value: ExprV,
    dynamic: bool,
    result: ResultV,
    ctx: ContextV,
) -> (ResultV, ContextV) {
    if dynamic {
        (result.with_binding(result.binding(elem, "style"@, value)), ctx)
    } else {
        (
            result.with_expr(call_v(no_span(), el_v("style"@), seq![el_v(elem), value])),
            ctx.register("style"@),
        )
    }
}

fn push_whole_style(
    elem_id: &str,
    value: Rc<Expr>,
    dynamic: bool,
    result: &mut TransformResult,
    context: &mut BlockContext,
)
    ensures
        (final(result)@, final(context)@) == whole_style_v(
            elem_id@,
            value@,
            dynamic,
            old(result)@,
            old(context)@,
        ),
{
    if dynamic {
        result.bind(elem_id, "style", value);
    } else {
        context.register_helper("style");
        result.push_expr(call2(nowhere(), el("style"), el(elem_id), value));
    }
}

/// The style set at run time, where none goes into the template.
pub open spec fn runtime_style_v(
    elem: Seq<char>,
    value: ExprV,
    result: ResultV,
    ctx: ContextV,
    options: TransformOptions,
) -> (ResultV, ContextV) {
    if wraps_effects(options) {
        (
            result.with_binding(
                BindingV {
                    elem,
                    key: "style"@,
                    value,
                    is_svg: false,
                    is_ce: false,
                    tag_name: result.tag(),
                },
            ),
            ctx,
        )
    } else {
        whole_style_v(elem, value, false, result, ctx)
    }
}

fn emit_inline_styles_disabled_runtime_update(
    elem_id: &str,
    value: Rc<Expr>,
    result: &mut TransformResult,
    context: &mut BlockContext,
    options: &TransformOptions,
)
    ensures
        (final(result)@, final(context)@) == runtime_style_v(
            elem_id@,
            value@,
            old(result)@,
            old(context)@,
            *options,
        ),
{
    if effect_wrapper_enabled(options) {
        let binding = DynamicBinding {
            elem: copied(elem_id),
            key: copied("style"),
            value,
            is_svg: false,
            is_ce: false,
            tag_name: result.tag(),
        };
        result.push_binding(binding);
    } else {
        push_whole_style(elem_id, value, false, result, context);
    }
}

/// A style object whose literal properties may go into the template.
pub open spec fn style_object_v(
    attr: JsxAttribute,
    props: Seq<Prop>,
    marked: bool,
    remainder_dynamic: bool,
    elem: Seq<char>,
    result: ResultV,
    ctx: ContextV,
    options: TransformOptions,
    spacing: bool,
) -> (ResultV, ContextV, bool) {
    let inline = inline_styles_v(props);
    let kept = kept_v(props);
    let inlined = if inline.len() > 0 {
        inline_v(result, "style"@, Some(join_v(inline, ";"@)), options.omit_quotes, spacing)
    } else {
        (result, spacing)
    };
    if kept.len() == 0 {
        (inlined.0, ctx, inlined.1)
    } else if can_split(kept) {
        let ctx = if !result.is_svg || has_static_single(
            kept,
            marked,
            ctx.source,
            options.static_marker@,
        ) {
            ctx.register("setStyleProperty"@)
        } else {
            ctx
        };
        (
            singles_v(kept, marked, elem, inlined.0, ctx.source, options.static_marker@),
            ctx,
            inlined.1,
        )
    } else {
        let value = object_v(attr.span, prop_values(kept));
        let dynamic = !marked && (remainder_dynamic || !confident_props(kept));
        let set = whole_style_v(elem, value, dynamic, inlined.0, ctx);
        (set.0, set.1, inlined.1)
    }
}

/// The style needs the element at run time.
pub open spec fn style_needs_id(attr: JsxAttribute, options: TransformOptions) -> bool {
    !options.inline_styles || match attr.value {
        JsxValue::Container { expr: Some(expr), .. } => match expr.kind {
            Kind::Object(props) => kept_v(props@).len() > 0,
            _ => true,
        },
        _ => false,
    }
}

/// The style attribute.
#[verifier::opaque]
pub open spec fn style_v(
    attr: JsxAttribute,
    elem: Option<Seq<char>>,
    result: ResultV,
    ctx: ContextV,
    options: TransformOptions,
    spacing: bool,
) -> (ResultV, ContextV, bool) {
    let id = elem->0;
    match attr.value {
        JsxValue::Str { value, .. } => if options.inline_styles {
            let inlined = inline_v(result, "style"@, Some(value@), options.omit_quotes, spacing);
            (inlined.0, ctx, inlined.1)
        } else {
            let set = runtime_style_v(id, raw_template_v(value@), result, ctx, options);
            (set.0, set.1, spacing)
        },
        JsxValue::Container { span, expr: Some(expr), remainder_dynamic } => {
            let marked = static_marker(ctx.source, span, options.static_marker@);
            if !options.inline_styles {
                let set = runtime_style_v(id, cloned_v(*expr, marked), result, ctx, options);
                (set.0, set.1, spacing)
            } else {
                match expr.kind {
                    Kind::Object(props) => style_object_v(
                        attr,
                        props@,
                        marked,
                        remainder_dynamic,
                        id,
                        result,
                        ctx,
                        options,
                        spacing,
                    ),
                    _ => {
                        let set = whole_style_v(
                            id,
                            cloned_v(*expr, marked),
                            !marked && (expr.facts.dynamic || !confident(*expr)),
                            result,
                            ctx,
                        );
                        (set.0, set.1, spacing)
                    },
                }
            }
        },
        _ => (result, ctx, spacing),
    }
}

fn confident_properties(props: &Vec<Prop>) -> (yes: bool)
    ensures
        yes == confident_props(props@),
{
    let mut i: usize = 0;
    while i < props.len()
        invariant
            i <= props.len(),
            forall|k: int|
                0 <= k < i ==> match #[trigger] props@[k] {
                    Prop::Spread { .. } => false,
                    Prop::Named { value, computed, .. } => !computed && confident(*value),
                },
        decreases props.len() - i,
    {
        let good = match &props[i] {
            Prop::Spread { .. } => false,
            Prop::Named { value, computed, .. } => !*computed && is_confident_static_expression(
                value,
            ),
        };
        if !good {
            proof {
                let p = props@[i as int];
                assert(!match p {
                    Prop::Spread { .. } => false,
                    Prop::Named { value, computed, .. } => !computed && confident(*value),
                });
            }
            return false;
        }
        i = i + 1;
    }
    true
}

fn transform_style_object(
    attr: &JsxAttribute,
    props: &Vec<Prop>,
    marked: bool,
    remainder_dynamic: bool,
    elem_id: &Option<String>,
    result: &mut TransformResult,
    context: &mut BlockContext,
    options: &TransformOptions,
    needs_spacing: &mut bool,
)
    requires
        elem_id is Some || kept_v(props@).len() == 0,
    ensures
        (final(result)@, final(context)@, *final(needs_spacing)) == style_object_v(
            *attr,
            props@,
            marked,
            remainder_dynamic,
            opt(*elem_id)->0,
            old(result)@,
            old(context)@,
            *options,
            *old(needs_spacing),
        ),
{
    let (inline, kept) = split_style(props);
    let is_svg = result.svg();
    if inline.len() > 0 {
        let text = join(&inline, ";");
        inline_attribute_on_template(
            result,
            "style",
            Some(text.as_str()),
            options.omit_quotes,
            needs_spacing,
        );
    }
    if kept.len() == 0 {
        return;
    }
    let id = match elem_id {
        Some(id) => id.as_str(),
        None => "",
    };
    if splits(&kept) {
        if !is_svg || has_static(&kept, marked, context, options.static_marker) {
            context.register_helper("setStyleProperty");
        }
        push_singles(&kept, marked, id, result, context, options.static_marker);
    } else {
        let dynamic = !marked && (remainder_dynamic || !confident_properties(&kept));
        let value = object(attr.span, kept);
        push_whole_style(id, value, dynamic, result, context);
    }
}

/// Transforms the style attribute.
pub fn transform_style(
    attr: &JsxAttribute,
    elem_id: &Option<String>,
    result: &mut TransformResult,
    context: &mut BlockContext,
    options: &TransformOptions,
    needs_spacing: &mut bool,
)
    requires
        elem_id is Some || !style_needs_id(*attr, *options),
    ensures
        (final(result)@, final(context)@, *final(needs_spacing)) == style_v(
            *attr,
            opt(*elem_id),
            old(result)@,
            old(context)@,
            *options,
            *old(needs_spacing),
        ),
{
    proof {
        reveal(style_v);
    }
    let id = match elem_id {
        Some(id) => id.as_str(),
        None => "",
    };
    match &attr.value {
        JsxValue::Str { value, .. } => {
            if options.inline_styles {
                inline_attribute_on_template(
                    result,
                    "style",
                    Some(value.as_str()),
                    options.omit_quotes,
                    needs_spacing,
                );
            } else {
                let text = template_literal_expr_from_raw(value.as_str());
                emit_inline_styles_disabled_runtime_update(id, text, result, context, options);
            }
        },
        JsxValue::Container { span, expr: Some(expr), remainder_dynamic } => {
            let marked = context.has_static_marker_comment(*span, options.static_marker);
            if !options.inline_styles {
                let value = cloned(expr, marked);
                emit_inline_styles_disabled_runtime_update(id, value, result, context, options);
                return;
            }
            match &expr.kind {
                Kind::Object(props) => transform_style_object(
                    attr,
                    props,
                    marked,
                    *remainder_dynamic,
                    elem_id,
                    result,
                    context,
                    options,
                    needs_spacing,
                ),
                _ => {
                    let dynamic = !marked && (expr.facts.dynamic
                        || !is_confident_static_expression(expr));
                    push_whole_style(id, cloned(expr, marked), dynamic, result, context);
                },
            }
        },
        _ => {},
    }
}

} // verus!
