//! Attributes leave what the file has gathered.

use crate::all_attributes::{
    attributes_v, classes_v, ending_v, fold_v, in_group, left_v, middle_v, ordered_v, start_v,
    AttrGroup,
};
use crate::ast::{no_span, JsxAttr, JsxAttribute, Prop};
use crate::attribute::{attribute_v, container_object, late_attribute_v, regular_v, AttrStateV};
use crate::attributes::{class_toggle_v, el_v};
use crate::growth::{group_growth, grows};
use crate::handlers::{directive_v, event_v, ref_v};
use crate::ir::{ContextV, ResultV};
use crate::make::{bool_cast_v, bool_v, call_v, thunk_v};
use crate::options::TransformOptions;
use crate::properties::{
    bool_attr_v, class_list_v, class_object_v, class_prop, inner_content_v, style_namespace_v,
};
use crate::style::style_v;
use crate::vocabulary::Vocabulary;
use vstd::prelude::*;

verus! {

broadcast use group_growth;

proof fn class_list_grows(props: Seq<Prop>, elem: Seq<char>, result: ResultV, ctx: ContextV)
    ensures
        grows(ctx, class_list_v(props, elem, result, ctx).2),
    decreases props.len(),
{
    if props.len() > 0 {
        if let Some((name, value)) = class_prop(props[0]) {
            let rest = props.skip(1);
            let on = class_toggle_v(elem, name, bool_v(no_span(), true));
            let toggled = class_toggle_v(elem, name, bool_cast_v(no_span(), value@));
            let effect = call_v(
                no_span(),
                el_v("effect"@),
                seq![thunk_v(no_span(), toggled)],
            );
            class_list_grows(rest, elem, result.with_expr(on), ctx);
            class_list_grows(rest, elem, result, ctx);
            class_list_grows(rest, elem, result.with_expr(effect), ctx.register("effect"@));
            class_list_grows(rest, elem, result.with_expr(toggled), ctx);
        }
    }
}

proof fn late_attribute_grows(
    attr: JsxAttribute,
    elem: Option<Seq<char>>,
    has_children: bool,
    state: AttrStateV,
    options: TransformOptions,
    vocabulary: Vocabulary,
)
    ensures
        grows(
            state.ctx,
            late_attribute_v(attr, elem, has_children, state, options, vocabulary).ctx,
        ),
{
    reveal(late_attribute_v);
    let id = elem->0;
    let result = state.result;
    let ctx = state.ctx;
    assert(grows(ctx, style_v(attr, elem, result, ctx, options, state.spacing).1)) by {
        reveal(style_v);
    }
    assert(grows(ctx, style_namespace_v(attr, id, result, ctx).1)) by {
        reveal(style_namespace_v);
    }
    assert(grows(ctx, inner_content_v(attr, id, result, ctx, options).1)) by {
        reveal(inner_content_v);
    }
    assert(grows(ctx, regular_v(attr, id, state, options, vocabulary).ctx)) by {
        reveal(regular_v);
    }
}

/// An attribute leaves what the file has gathered.
pub proof fn attribute_grows(
    attr: JsxAttribute,
    elem: Option<Seq<char>>,
    has_children: bool,
    state: AttrStateV,
    options: TransformOptions,
    vocabulary: Vocabulary,
)
    ensures
        grows(
            state.ctx,
            attribute_v(attr, elem, has_children, state, options, vocabulary).ctx,
        ),
{
    reveal(attribute_v);
    let id = elem->0;
    let result = state.result;
    let ctx = state.ctx;
    assert(grows(ctx, ref_v(attr, id, result, ctx).1)) by {
        reveal(ref_v);
    }
    assert(grows(ctx, event_v(attr, id, result, ctx, options, vocabulary).1)) by {
        reveal(event_v);
    }
    assert(grows(ctx, directive_v(attr, id, result, ctx).1)) by {
        reveal(directive_v);
    }
    assert(grows(ctx, bool_attr_v(attr, id, result, ctx, options, state.spacing).1)) by {
        reveal(bool_attr_v);
    }
    if let Some(props) = container_object(attr.value) {
        class_list_grows(props@, id, result, ctx);
        let taken = class_list_v(props@, id, result, ctx);
        let next = state.with((taken.1, taken.2));
        late_attribute_grows(attr, elem, has_children, next, options, vocabulary);
        let object = class_object_v(props@, id, result, options.omit_quotes, state.spacing);
        let next = AttrStateV { result: object.1, spacing: object.2, ..state };
        late_attribute_grows(attr, elem, has_children, next, options, vocabulary);
    }
    late_attribute_grows(attr, elem, has_children, state, options, vocabulary);
}

proof fn fold_grows(
    attrs: Seq<JsxAttribute>,
    elem: Option<Seq<char>>,
    has_children: bool,
    state: AttrStateV,
    options: TransformOptions,
    vocabulary: Vocabulary,
)
    ensures
        grows(state.ctx, fold_v(attrs, elem, has_children, state, options, vocabulary).ctx),
    decreases attrs.len(),
{
    reveal(fold_v);
    if attrs.len() > 0 {
        let before = fold_v(attrs.drop_last(), elem, has_children, state, options, vocabulary);
        fold_grows(attrs.drop_last(), elem, has_children, state, options, vocabulary);
        attribute_grows(attrs.last(), elem, has_children, before, options, vocabulary);
    }
}

proof fn classes_grow(
    attrs: Seq<JsxAttribute>,
    elem: Option<Seq<char>>,
    has_children: bool,
    state: AttrStateV,
    options: TransformOptions,
    vocabulary: Vocabulary,
)
    ensures
        classes_v(attrs, elem, has_children, state, options, vocabulary) matches Some(next)
            ==> grows(state.ctx, next.ctx),
{
    reveal(classes_v);
    if attrs.len() == 1 {
        attribute_grows(attrs[0], elem, has_children, state, options, vocabulary);
    }
}

proof fn middle_grows(
    attrs: Seq<JsxAttribute>,
    elem: Option<Seq<char>>,
    has_children: bool,
    state: AttrStateV,
    options: TransformOptions,
    vocabulary: Vocabulary,
)
    ensures
        grows(state.ctx, middle_v(attrs, elem, has_children, state, options, vocabulary).ctx),
{
    reveal(middle_v);
    let plain = in_group(attrs, AttrGroup::Plain);
    let listeners = in_group(attrs, AttrGroup::Listener).reverse();
    let styles = in_group(attrs, AttrGroup::Style);
    fold_grows(plain, elem, has_children, state, options, vocabulary);
    let s1 = fold_v(plain, elem, has_children, state, options, vocabulary);
    fold_grows(listeners, elem, has_children, s1, options, vocabulary);
    let s2 = fold_v(listeners, elem, has_children, s1, options, vocabulary);
    fold_grows(styles, elem, has_children, s2, options, vocabulary);
}

proof fn ending_grows(
    attrs: Seq<JsxAttribute>,
    elem: Option<Seq<char>>,
    has_children: bool,
    state: AttrStateV,
    from: nat,
    options: TransformOptions,
    vocabulary: Vocabulary,
)
    ensures
        grows(
            state.ctx,
            ending_v(attrs, elem, has_children, state, from, options, vocabulary).ctx,
        ),
{
    reveal(ending_v);
    let names = in_group(attrs, AttrGroup::ClassName);
    fold_grows(names, elem, has_children, state, options, vocabulary);
}

proof fn ordered_grows(
    attrs: Seq<JsxAttribute>,
    elem: Option<Seq<char>>,
    has_children: bool,
    state: AttrStateV,
    options: TransformOptions,
    vocabulary: Vocabulary,
)
    ensures
        grows(
            state.ctx,
            ordered_v(attrs, elem, has_children, state, options, vocabulary).0.ctx,
        ),
{
    reveal(ordered_v);
    let from = state.result.dynamics.len();
    let classes = in_group(attrs, AttrGroup::Class);
    classes_grow(classes, elem, has_children, state, options, vocabulary);
    if let Some(next) = classes_v(classes, elem, has_children, state, options, vocabulary) {
        middle_grows(attrs, elem, has_children, next, options, vocabulary);
        let mid = middle_v(attrs, elem, has_children, next, options, vocabulary);
        ending_grows(attrs, elem, has_children, mid, from, options, vocabulary);
    }
    middle_grows(attrs, elem, has_children, state, options, vocabulary);
    let mid = middle_v(attrs, elem, has_children, state, options, vocabulary);
    classes_grow(classes, elem, has_children, mid, options, vocabulary);
    if let Some(next) = classes_v(classes, elem, has_children, mid, options, vocabulary) {
        ending_grows(attrs, elem, has_children, next, from, options, vocabulary);
    }
}

/// The attributes of an element leave what the file has gathered.
pub proof fn attributes_grow(
    attrs: Seq<JsxAttr>,
    has_children: bool,
    result: ResultV,
    ctx: ContextV,
    options: TransformOptions,
    vocabulary: Vocabulary,
)
    ensures
        grows(ctx, attributes_v(attrs, has_children, result, ctx, options, vocabulary).1),
{
    reveal(attributes_v);
    let elem = result.id;
    let start = start_v(attrs, elem, has_children, result, ctx, options).0;
    assert(grows(ctx, start.ctx)) by {
        reveal(start_v);
    }
    let list = left_v(attrs, ctx.source, options);
    ordered_grows(list, elem, has_children, start, options, vocabulary);
}

} // verus!
