//! The JSX in what attributes are transformed into.

use crate::all_attributes::{
    attributes_v, class_bindings, classes_up, classes_v, ending_v, fold_v, group_of, in_group,
    left_v, middle_v, named, ordered_v, start_v, synthetic_v, AttrGroup,
};
use crate::ast::{
    expr_value, no_span, prop_value, prop_values, Expr, ExprV, JsxAttr, JsxAttribute, JsxValue,
    Kind, KindV, Prop, Span,
};
use crate::attribute::{attribute_v, container_object, late_attribute_v, regular_v, AttrStateV};
use crate::attributes::{class_toggle_v, el_v, inline_v};
use crate::handlers::{directive_v, event_v, handler_v, ref_v};
use crate::ir::{BindingV, ContextV, ResultV};
use crate::make::{bool_cast_v, bool_v, call_v, object_v, thunk_v};
use crate::marker::static_marker;
use crate::nesting::prop_holds;
use crate::nesting_make::{
    all_ok, an_element, attr_in, bindings_ok, body_ok, expr_in, given_props, group_made, ok,
    prop_ok, props_in, props_ok,
};
use crate::options::TransformOptions;
use crate::properties::{
    bool_attr_v, class_list_v, class_object_v, class_prop, class_props_v, inner_content_v,
    style_namespace_v,
};
use crate::spread::{
    attr_prop_v, class_part_v, class_parts_v, class_pieces_v, spread_arg_v, spreads_v,
    ClassPartV, SpreadsV,
};
use crate::style::{inline_styles_v, kept_v, single_v, singles_v, style_object_v, style_v};
use crate::template::set_attr_v;
use crate::text::join_v;
use crate::vocabulary::Vocabulary;
use vstd::prelude::*;

verus! {

broadcast use group_made;

/// `p` holds of all JSX in some attributes.
pub open spec fn attrs_in(attrs: Seq<JsxAttribute>, p: spec_fn(KindV) -> bool) -> bool {
    forall|i: int| 0 <= i < attrs.len() ==> attr_in(#[trigger] attrs[i], p)
}

/// `p` holds of all JSX in attributes and spreads.
pub open spec fn all_attrs_in(attrs: Seq<JsxAttr>, p: spec_fn(KindV) -> bool) -> bool {
    forall|i: int|
        0 <= i < attrs.len() ==> match #[trigger] attrs[i] {
            JsxAttr::Named(attr) => attr_in(attr, p),
            JsxAttr::Spread { argument, .. } => expr_in(*argument, p),
        }
}

// ---------------------------------------------------------------------------
// One attribute
// ---------------------------------------------------------------------------

/// The setting of an attribute keeps what holds of all JSX.
pub proof fn set_attr_holds(
    span: Span,
    binding: BindingV,
    value: ExprV,
    prev: Option<ExprV>,
    hydratable: bool,
    vocabulary: Vocabulary,
    p: spec_fn(KindV) -> bool,
)
    requires
        ok(value, p),
        prev matches Some(prev) ==> ok(prev, p),
    ensures
        ok(set_attr_v(span, binding, value, prev, hydratable, vocabulary), p),
{
}

proof fn class_value_holds(prop: &Prop, p: spec_fn(KindV) -> bool)
    requires
        prop_ok(prop_value(*prop), p),
    ensures
        class_prop(*prop) matches Some((_, value)) ==> ok(expr_value(*value), p),
{
}

proof fn class_list_holds(
    props: Seq<Prop>,
    elem: Seq<char>,
    result: ResultV,
    ctx: ContextV,
    p: spec_fn(KindV) -> bool,
)
    requires
        props_in(props, p),
        body_ok(result, p),
    ensures
        body_ok(class_list_v(props, elem, result, ctx).1, p),
    decreases props.len(),
{
    if props.len() > 0 {
        class_value_holds(&props[0], p);
        let rest = props.skip(1);
        assert(props_in(rest, p)) by {
            assert forall|i: int| 0 <= i < rest.len() implies prop_ok(
                prop_value(#[trigger] rest[i]),
                p,
            ) by {
                assert(rest[i] == props[i + 1]);
            }
        }
        if let Some((name, value)) = class_prop(props[0]) {
            let on = class_toggle_v(elem, name, bool_v(no_span(), true));
            let toggled = class_toggle_v(elem, name, bool_cast_v(no_span(), value@));
            let effect = call_v(
                no_span(),
                el_v("effect"@),
                seq![thunk_v(no_span(), toggled)],
            );
            assert(ok(on, p) && ok(toggled, p) && ok(effect, p));
            class_list_holds(rest, elem, result.with_expr(on), ctx, p);
            class_list_holds(rest, elem, result, ctx, p);
            class_list_holds(rest, elem, result.with_expr(effect), ctx.register("effect"@), p);
            class_list_holds(rest, elem, result.with_expr(toggled), ctx, p);
        }
    }
}

proof fn class_props_hold(
    props: Seq<Prop>,
    elem: Seq<char>,
    result: ResultV,
    classes: Seq<Seq<char>>,
    p: spec_fn(KindV) -> bool,
)
    requires
        props_in(props, p),
        body_ok(result, p),
    ensures
        body_ok(class_props_v(props, elem, result, classes).1, p),
    decreases props.len(),
{
    if props.len() > 0 {
        class_value_holds(&props[0], p);
        let rest = props.skip(1);
        assert(props_in(rest, p)) by {
            assert forall|i: int| 0 <= i < rest.len() implies prop_ok(
                prop_value(#[trigger] rest[i]),
                p,
            ) by {
                assert(rest[i] == props[i + 1]);
            }
        }
        if let Some((name, value)) = class_prop(props[0]) {
            let toggled = class_toggle_v(elem, name, bool_cast_v(no_span(), value@));
            assert(ok(toggled, p));
            let bound = result.with_binding(result.binding(elem, "class:"@ + name, value@));
            class_props_hold(rest, elem, result, classes.push(name), p);
            class_props_hold(rest, elem, result, classes, p);
            class_props_hold(rest, elem, bound, classes, p);
            class_props_hold(rest, elem, result.with_expr(toggled), classes, p);
        }
    }
}

proof fn kept_hold(props: Seq<Prop>, p: spec_fn(KindV) -> bool)
    requires
        props_in(props, p),
    ensures
        props_in(kept_v(props), p),
        props_ok(prop_values(kept_v(props)), p),
    decreases props.len(),
{
    let kept = kept_v(props);
    if props.len() > 0 {
        let front = props.drop_last();
        assert(props_in(front, p)) by {
            assert forall|i: int| 0 <= i < front.len() implies prop_ok(
                prop_value(#[trigger] front[i]),
                p,
            ) by {
                assert(front[i] == props[i]);
            }
        }
        kept_hold(front, p);
        assert(prop_ok(prop_value(props[props.len() - 1]), p));
    }
    reveal(props_ok);
    reveal(prop_ok);
    assert forall|i: int| 0 <= i < prop_values(kept).len() implies prop_holds(
        #[trigger] prop_values(kept)[i],
        p,
    ) by {
        assert(prop_values(kept)[i] == prop_value(kept[i]));
    }
}

proof fn singles_hold(
    props: Seq<Prop>,
    marked: bool,
    elem: Seq<char>,
    result: ResultV,
    source: Seq<char>,
    marker: Seq<char>,
    p: spec_fn(KindV) -> bool,
)
    requires
        props_in(props, p),
        body_ok(result, p),
    ensures
        body_ok(singles_v(props, marked, elem, result, source, marker), p),
    decreases props.len(),
{
    if props.len() > 0 {
        let front = props.drop_last();
        assert(props_in(front, p)) by {
            assert forall|i: int| 0 <= i < front.len() implies prop_ok(
                prop_value(#[trigger] front[i]),
                p,
            ) by {
                assert(front[i] == props[i]);
            }
        }
        singles_hold(front, marked, elem, result, source, marker, p);
        assert(prop_ok(prop_value(props[props.len() - 1]), p));
        single_holds(&props[props.len() - 1], marked, source, marker, p);
    }
}

proof fn single_holds(
    prop: &Prop,
    marked: bool,
    source: Seq<char>,
    marker: Seq<char>,
    p: spec_fn(KindV) -> bool,
)
    requires
        prop_ok(prop_value(*prop), p),
    ensures
        single_v(*prop, marked, source, marker) matches Some((_, value, _)) ==> ok(value, p),
{
}

proof fn style_object_holds(
    attr: &JsxAttribute,
    props: Seq<Prop>,
    marked: bool,
    remainder_dynamic: bool,
    elem: Seq<char>,
    result: ResultV,
    ctx: ContextV,
    options: TransformOptions,
    spacing: bool,
    p: spec_fn(KindV) -> bool,
)
    requires
        props_in(props, p),
        body_ok(result, p),
    ensures
        body_ok(
            style_object_v(
                *attr,
                props,
                marked,
                remainder_dynamic,
                elem,
                result,
                ctx,
                options,
                spacing,
            ).0,
            p,
        ),
{
    kept_hold(props, p);
    let kept = kept_v(props);
    let inline = inline_styles_v(props);
    let inlined = if inline.len() > 0 {
        inline_v(result, "style"@, Some(join_v(inline, ";"@)), options.omit_quotes, spacing)
    } else {
        (result, spacing)
    };
    assert(body_ok(inlined.0, p));
    let marker = options.static_marker@;
    singles_hold(kept, marked, elem, inlined.0, ctx.source, marker, p);
    let value = object_v(attr.span, prop_values(kept));
    assert(ok(value, p));
    let next = ctx.register("setStyleProperty"@);
    assert(next.source == ctx.source);
}

proof fn style_holds(
    attr: &JsxAttribute,
    elem: Option<Seq<char>>,
    result: ResultV,
    ctx: ContextV,
    options: TransformOptions,
    spacing: bool,
    p: spec_fn(KindV) -> bool,
)
    requires
        attr_in(*attr, p),
        body_ok(result, p),
    ensures
        body_ok(style_v(*attr, elem, result, ctx, options, spacing).0, p),
{
    reveal(style_v);
    if let JsxValue::Container { span, expr: Some(expr), remainder_dynamic } = &attr.value {
        given_props(&**expr, p);
        if let Kind::Object(props) = &expr.kind {
            style_object_holds(
                attr,
                props@,
                static_marker(ctx.source, *span, options.static_marker@),
                *remainder_dynamic,
                elem->0,
                result,
                ctx,
                options,
                spacing,
                p,
            );
        }
    }
}

proof fn event_holds(
    attr: &JsxAttribute,
    elem: Seq<char>,
    result: ResultV,
    ctx: ContextV,
    options: TransformOptions,
    vocabulary: Vocabulary,
    p: spec_fn(KindV) -> bool,
)
    requires
        attr_in(*attr, p),
        body_ok(result, p),
    ensures
        body_ok(event_v(*attr, elem, result, ctx, options, vocabulary).0, p),
{
    reveal(event_v);
    let handler = handler_v(attr.value);
    assert(ok(handler.handler, p) && (handler.data matches Some(data) ==> ok(
        expr_value(*data),
        p,
    ))) by {
        if let JsxValue::Container { expr: Some(expr), .. } = &attr.value {
            an_element(&**expr, 0, p);
            an_element(&**expr, 1, p);
        }
    }
}

proof fn regular_holds(
    attr: &JsxAttribute,
    elem: Seq<char>,
    state: AttrStateV,
    options: TransformOptions,
    vocabulary: Vocabulary,
    p: spec_fn(KindV) -> bool,
)
    requires
        attr_in(*attr, p),
        body_ok(state.result, p),
    ensures
        body_ok(regular_v(*attr, elem, state, options, vocabulary).result, p),
{
    reveal(regular_v);
    assert forall|span: Span, binding: BindingV, value: ExprV|
        ok(value, p) implies ok(
        #[trigger] set_attr_v(span, binding, value, None, options.hydratable, vocabulary),
        p,
    ) by {
        set_attr_holds(span, binding, value, None, options.hydratable, vocabulary, p);
    }
}

proof fn late_attribute_holds(
    attr: &JsxAttribute,
    elem: Option<Seq<char>>,
    has_children: bool,
    state: AttrStateV,
    options: TransformOptions,
    vocabulary: Vocabulary,
    p: spec_fn(KindV) -> bool,
)
    requires
        attr_in(*attr, p),
        body_ok(state.result, p),
    ensures
        body_ok(
            late_attribute_v(*attr, elem, has_children, state, options, vocabulary).result,
            p,
        ),
{
    reveal(late_attribute_v);
    let id = elem->0;
    let result = state.result;
    let ctx = state.ctx;
    style_holds(attr, elem, result, ctx, options, state.spacing, p);
    assert(body_ok(style_namespace_v(*attr, id, result, ctx).0, p)) by {
        reveal(style_namespace_v);
    }
    assert(body_ok(inner_content_v(*attr, id, result, ctx, options).0, p)) by {
        reveal(inner_content_v);
    }
    regular_holds(attr, id, state, options, vocabulary, p);
}

/// An attribute keeps what holds of all JSX.
pub proof fn attribute_holds(
    attr: &JsxAttribute,
    elem: Option<Seq<char>>,
    has_children: bool,
    state: AttrStateV,
    options: TransformOptions,
    vocabulary: Vocabulary,
    p: spec_fn(KindV) -> bool,
)
    requires
        attr_in(*attr, p),
        body_ok(state.result, p),
    ensures
        body_ok(attribute_v(*attr, elem, has_children, state, options, vocabulary).result, p),
{
    reveal(attribute_v);
    let id = elem->0;
    let result = state.result;
    let ctx = state.ctx;
    assert(body_ok(ref_v(*attr, id, result, ctx).0, p)) by {
        reveal(ref_v);
    }
    event_holds(attr, id, result, ctx, options, vocabulary, p);
    assert(body_ok(directive_v(*attr, id, result, ctx).0, p)) by {
        reveal(directive_v);
    }
    assert(body_ok(bool_attr_v(*attr, id, result, ctx, options, state.spacing).0, p)) by {
        reveal(bool_attr_v);
    }
    if let JsxValue::Container { expr: Some(expr), .. } = &attr.value {
        given_props(&**expr, p);
    }
    if let Some(props) = container_object(attr.value) {
        class_list_holds(props@, id, result, ctx, p);
        let taken = class_list_v(props@, id, result, ctx);
        let next = state.with((taken.1, taken.2));
        late_attribute_holds(attr, elem, has_children, next, options, vocabulary, p);
        let object = class_object_v(props@, id, result, options.omit_quotes, state.spacing);
        assert(body_ok(object.1, p)) by {
            reveal(class_object_v);
            class_props_hold(props@, id, result, seq![], p);
        }
        let next = AttrStateV { result: object.1, spacing: object.2, ..state };
        late_attribute_holds(attr, elem, has_children, next, options, vocabulary, p);
    }
    late_attribute_holds(attr, elem, has_children, state, options, vocabulary, p);
}

// ---------------------------------------------------------------------------
// All attributes
// ---------------------------------------------------------------------------

proof fn fold_holds(
    attrs: Seq<JsxAttribute>,
    elem: Option<Seq<char>>,
    has_children: bool,
    state: AttrStateV,
    options: TransformOptions,
    vocabulary: Vocabulary,
    p: spec_fn(KindV) -> bool,
)
    requires
        attrs_in(attrs, p),
        body_ok(state.result, p),
    ensures
        body_ok(fold_v(attrs, elem, has_children, state, options, vocabulary).result, p),
    decreases attrs.len(),
{
    reveal(fold_v);
    if attrs.len() > 0 {
        let front = attrs.drop_last();
        assert forall|i: int| 0 <= i < front.len() implies attr_in(#[trigger] front[i], p) by {
            assert(front[i] == attrs[i]);
        }
        let before = fold_v(front, elem, has_children, state, options, vocabulary);
        fold_holds(front, elem, has_children, state, options, vocabulary, p);
        assert(attr_in(attrs[attrs.len() - 1], p));
        attribute_holds(&attrs[attrs.len() - 1], elem, has_children, before, options, vocabulary, p);
    }
}

proof fn group_holds(attrs: Seq<JsxAttribute>, group: AttrGroup, p: spec_fn(KindV) -> bool)
    requires
        attrs_in(attrs, p),
    ensures
        attrs_in(in_group(attrs, group), p),
        forall|i: int|
            0 <= i < in_group(attrs, group).len() ==> group_of(
                #[trigger] in_group(attrs, group)[i],
            ) == group,
    decreases attrs.len(),
{
    reveal(in_group);
    if attrs.len() > 0 {
        let front = attrs.drop_last();
        assert forall|i: int| 0 <= i < front.len() implies attr_in(#[trigger] front[i], p) by {
            assert(front[i] == attrs[i]);
        }
        group_holds(front, group, p);
        assert(attr_in(attrs[attrs.len() - 1], p));
    }
}

proof fn named_hold(attrs: Seq<JsxAttr>, p: spec_fn(KindV) -> bool)
    requires
        all_attrs_in(attrs, p),
    ensures
        attrs_in(named(attrs), p),
    decreases attrs.len(),
{
    reveal(named);
    if attrs.len() > 0 {
        let front = attrs.drop_last();
        assert(all_attrs_in(front, p)) by {
            assert forall|i: int| 0 <= i < front.len() implies match #[trigger] front[i] {
                JsxAttr::Named(attr) => attr_in(attr, p),
                JsxAttr::Spread { argument, .. } => expr_in(*argument, p),
            } by {
                assert(front[i] == attrs[i]);
            }
        }
        named_hold(front, p);
        let last = attrs[attrs.len() - 1];
        assert(last is Named ==> attr_in(last->Named_0, p));
    }
}

spec fn spreads_ok(all: SpreadsV, p: spec_fn(KindV) -> bool) -> bool {
    attrs_in(all.left, p) && all_ok(all.args, p) && props_ok(all.props, p)
}

proof fn attr_prop_holds(
    attr: &JsxAttribute,
    source: Seq<char>,
    marker: Seq<char>,
    p: spec_fn(KindV) -> bool,
)
    requires
        attr_in(*attr, p),
    ensures
        prop_ok(attr_prop_v(*attr, source, marker), p),
{
}

proof fn spread_arg_holds(span: Span, argument: &Expr, marked: bool, p: spec_fn(KindV) -> bool)
    requires
        expr_in(*argument, p),
    ensures
        ok(spread_arg_v(span, *argument, marked), p),
{
}

proof fn spreads_hold(
    attrs: Seq<JsxAttr>,
    source: Seq<char>,
    marker: Seq<char>,
    p: spec_fn(KindV) -> bool,
)
    requires
        all_attrs_in(attrs, p),
    ensures
        spreads_ok(spreads_v(attrs, source, marker), p),
    decreases attrs.len(),
{
    if attrs.len() > 0 {
        let front = attrs.drop_last();
        assert(all_attrs_in(front, p)) by {
            assert forall|i: int| 0 <= i < front.len() implies match #[trigger] front[i] {
                JsxAttr::Named(attr) => attr_in(attr, p),
                JsxAttr::Spread { argument, .. } => expr_in(*argument, p),
            } by {
                assert(front[i] == attrs[i]);
            }
        }
        spreads_hold(front, source, marker, p);
        match &attrs[attrs.len() - 1] {
            JsxAttr::Named(attr) => {
                attr_prop_holds(attr, source, marker, p);
            },
            JsxAttr::Spread { span, argument } => {
                spread_arg_holds(
                    *span,
                    &**argument,
                    static_marker(source, *span, marker),
                    p,
                );
            },
        }
    }
}

proof fn class_parts_hold(attrs: Seq<JsxAttribute>, p: spec_fn(KindV) -> bool)
    requires
        attrs_in(attrs, p),
    ensures
        forall|i: int|
            0 <= i < class_parts_v(attrs).len() ==> (#[trigger] class_parts_v(
                attrs,
            )[i] matches ClassPartV::Dynamic(expr) ==> ok(expr, p)),
    decreases attrs.len(),
{
    if attrs.len() > 0 {
        let front = attrs.drop_last();
        assert forall|i: int| 0 <= i < front.len() implies attr_in(#[trigger] front[i], p) by {
            assert(front[i] == attrs[i]);
        }
        class_parts_hold(front, p);
        assert(attr_in(attrs[attrs.len() - 1], p));
        class_part_holds(&attrs[attrs.len() - 1], p);
    }
}

proof fn class_part_holds(attr: &JsxAttribute, p: spec_fn(KindV) -> bool)
    requires
        attr_in(*attr, p),
    ensures
        class_part_v(*attr) matches Some(ClassPartV::Dynamic(expr)) ==> ok(expr, p),
{
}

proof fn class_pieces_hold(parts: Seq<ClassPartV>, n: nat, p: spec_fn(KindV) -> bool)
    requires
        n <= parts.len(),
        forall|i: int|
            0 <= i < parts.len() ==> (#[trigger] parts[i] matches ClassPartV::Dynamic(expr) ==> ok(
                expr,
                p,
            )),
    ensures
        all_ok(class_pieces_v(parts, n).1, p),
    decreases n,
{
    if n > 0 {
        class_pieces_hold(parts, (n - 1) as nat, p);
        assert(parts[n - 1] matches ClassPartV::Dynamic(expr) ==> ok(expr, p));
    }
}

proof fn classes_hold(
    attrs: Seq<JsxAttribute>,
    elem: Option<Seq<char>>,
    has_children: bool,
    state: AttrStateV,
    options: TransformOptions,
    vocabulary: Vocabulary,
    p: spec_fn(KindV) -> bool,
)
    requires
        attrs_in(attrs, p),
        body_ok(state.result, p),
    ensures
        classes_v(attrs, elem, has_children, state, options, vocabulary) matches Some(next)
            ==> body_ok(next.result, p),
{
    reveal(classes_v);
    if attrs.len() == 1 {
        attribute_holds(&attrs[0], elem, has_children, state, options, vocabulary, p);
    }
    class_parts_hold(attrs, p);
    let parts = class_parts_v(attrs);
    class_pieces_hold(parts, parts.len(), p);
}

proof fn class_bindings_hold(items: Seq<BindingV>, wanted: bool, p: spec_fn(KindV) -> bool)
    requires
        bindings_ok(items, p),
    ensures
        bindings_ok(class_bindings(items, wanted), p),
    decreases items.len(),
{
    if items.len() > 0 {
        assert(bindings_ok(items.drop_last(), p) && ok(items.last().value, p)) by {
            assert(items =~= items.drop_last().push(items.last()));
        }
        class_bindings_hold(items.drop_last(), wanted, p);
    }
}

proof fn classes_up_hold(items: Seq<BindingV>, from: nat, p: spec_fn(KindV) -> bool)
    requires
        bindings_ok(items, p),
        from <= items.len(),
    ensures
        bindings_ok(classes_up(items, from as int), p),
{
    assert(items =~= items.take(from as int) + items.skip(from as int));
    class_bindings_hold(items.skip(from as int), true, p);
    class_bindings_hold(items.skip(from as int), false, p);
}

proof fn middle_holds(
    attrs: Seq<JsxAttribute>,
    elem: Option<Seq<char>>,
    has_children: bool,
    state: AttrStateV,
    options: TransformOptions,
    vocabulary: Vocabulary,
    p: spec_fn(KindV) -> bool,
)
    requires
        attrs_in(attrs, p),
        body_ok(state.result, p),
    ensures
        body_ok(middle_v(attrs, elem, has_children, state, options, vocabulary).result, p),
{
    reveal(middle_v);
    let plain = in_group(attrs, AttrGroup::Plain);
    let on = in_group(attrs, AttrGroup::Listener);
    let listeners = on.reverse();
    let styles = in_group(attrs, AttrGroup::Style);
    group_holds(attrs, AttrGroup::Plain, p);
    group_holds(attrs, AttrGroup::Listener, p);
    group_holds(attrs, AttrGroup::Style, p);
    assert forall|i: int| 0 <= i < listeners.len() implies attr_in(#[trigger] listeners[i], p) by {
        assert(listeners[i] == on[on.len() - 1 - i]);
    }
    fold_holds(plain, elem, has_children, state, options, vocabulary, p);
    let s1 = fold_v(plain, elem, has_children, state, options, vocabulary);
    fold_holds(listeners, elem, has_children, s1, options, vocabulary, p);
    let s2 = fold_v(listeners, elem, has_children, s1, options, vocabulary);
    fold_holds(styles, elem, has_children, s2, options, vocabulary, p);
}

proof fn ending_holds(
    attrs: Seq<JsxAttribute>,
    elem: Option<Seq<char>>,
    has_children: bool,
    state: AttrStateV,
    from: nat,
    options: TransformOptions,
    vocabulary: Vocabulary,
    p: spec_fn(KindV) -> bool,
)
    requires
        attrs_in(attrs, p),
        body_ok(state.result, p),
    ensures
        body_ok(ending_v(attrs, elem, has_children, state, from, options, vocabulary).result, p),
{
    reveal(ending_v);
    let names = in_group(attrs, AttrGroup::ClassName);
    group_holds(attrs, AttrGroup::ClassName, p);
    fold_holds(names, elem, has_children, state, options, vocabulary, p);
    let end = fold_v(names, elem, has_children, state, options, vocabulary);
    if from < end.result.dynamics.len() {
        classes_up_hold(end.result.dynamics, from, p);
    }
}

proof fn ordered_holds(
    attrs: Seq<JsxAttribute>,
    elem: Option<Seq<char>>,
    has_children: bool,
    state: AttrStateV,
    options: TransformOptions,
    vocabulary: Vocabulary,
    p: spec_fn(KindV) -> bool,
)
    requires
        attrs_in(attrs, p),
        body_ok(state.result, p),
    ensures
        body_ok(ordered_v(attrs, elem, has_children, state, options, vocabulary).0.result, p),
{
    reveal(ordered_v);
    let from = state.result.dynamics.len();
    let classes = in_group(attrs, AttrGroup::Class);
    group_holds(attrs, AttrGroup::Class, p);
    classes_hold(classes, elem, has_children, state, options, vocabulary, p);
    if let Some(next) = classes_v(classes, elem, has_children, state, options, vocabulary) {
        middle_holds(attrs, elem, has_children, next, options, vocabulary, p);
        let mid = middle_v(attrs, elem, has_children, next, options, vocabulary);
        ending_holds(attrs, elem, has_children, mid, from, options, vocabulary, p);
    }
    middle_holds(attrs, elem, has_children, state, options, vocabulary, p);
    let mid = middle_v(attrs, elem, has_children, state, options, vocabulary);
    classes_hold(classes, elem, has_children, mid, options, vocabulary, p);
    if let Some(next) = classes_v(classes, elem, has_children, mid, options, vocabulary) {
        ending_holds(attrs, elem, has_children, next, from, options, vocabulary, p);
    }
}

/// The attributes of an element keep what holds of all JSX, and so do the
/// children that one of them gives.
pub proof fn attributes_hold(
    attrs: Seq<JsxAttr>,
    has_children: bool,
    result: ResultV,
    ctx: ContextV,
    options: TransformOptions,
    vocabulary: Vocabulary,
    p: spec_fn(KindV) -> bool,
)
    requires
        all_attrs_in(attrs, p),
        body_ok(result, p),
    ensures
        ({
            let set = attributes_v(attrs, has_children, result, ctx, options, vocabulary);
            &&& body_ok(set.0, p)
            &&& set.3 matches Some((expr, _)) ==> expr_in(*expr, p)
        }),
{
    reveal(attributes_v);
    let elem = result.id;
    let marker = options.static_marker@;
    spreads_hold(attrs, ctx.source, marker, p);
    named_hold(attrs, p);
    let started = start_v(attrs, elem, has_children, result, ctx, options);
    assert(body_ok(started.0.result, p) && (started.1 matches Some(call) ==> ok(call, p))) by {
        reveal(start_v);
        let all = spreads_v(attrs, ctx.source, marker).flushed();
        assert(all_ok(all.args, p));
    }
    let list = left_v(attrs, ctx.source, options);
    assert(attrs_in(list, p)) by {
        reveal(left_v);
    }
    ordered_holds(list, elem, has_children, started.0, options, vocabulary, p);
    assert(synthetic_v(list, has_children, ctx.source, marker) matches Some((expr, _)) ==> expr_in(
        *expr,
        p,
    )) by {
        reveal(synthetic_v);
        group_holds(list, AttrGroup::Children, p);
        let given = in_group(list, AttrGroup::Children);
        if given.len() > 0 {
            assert(attr_in(given[given.len() - 1], p));
            assert(group_of(given[given.len() - 1]) == AttrGroup::Children);
        }
    }
}

} // verus!
