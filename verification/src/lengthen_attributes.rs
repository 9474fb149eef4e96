//! Attributes are written behind what stands in the templates.

use crate::all_attributes::{
    attributes_v, classes_v, ending_v, fold_v, in_group, left_v, middle_v, ordered_v, start_v,
    AttrGroup,
};
use crate::ast::{no_span, JsxAttr, JsxAttribute, Prop};
use crate::attribute::{attribute_v, container_object, late_attribute_v, regular_v, AttrStateV};
use crate::attributes::{class_toggle_v, el_v};
use crate::handlers::{directive_v, event_v, ref_v};
use crate::ir::{ContextV, ResultV};
use crate::lengthen::{group_lengthen, lengthens};
use crate::make::{bool_cast_v, bool_v, call_v, thunk_v};
use crate::options::TransformOptions;
use crate::properties::{
    bool_attr_v, class_list_v, class_object_v, class_prop, class_props_v, inner_content_v,
    style_namespace_v,
};
use crate::style::{singles_v, style_v};
use crate::vocabulary::Vocabulary;
use vstd::prelude::*;

verus! {

broadcast use group_lengthen;

// ---------------------------------------------------------------------------
// Attributes
// ---------------------------------------------------------------------------

proof fn class_props_lengthen(
    props: Seq<Prop>,
    elem: Seq<char>,
    result: ResultV,
    classes: Seq<Seq<char>>,
)
    ensures
        lengthens(result, class_props_v(props, elem, result, classes).1),
    decreases props.len(),
{
    if props.len() > 0 {
        if let Some((name, value)) = class_prop(props[0]) {
            let rest = props.skip(1);
            let bound = result.with_binding(result.binding(elem, "class:"@ + name, value@));
            let toggled = class_toggle_v(elem, name, bool_cast_v(no_span(), value@));
            class_props_lengthen(rest, elem, result, classes.push(name));
            class_props_lengthen(rest, elem, result, classes);
            class_props_lengthen(rest, elem, bound, classes);
            class_props_lengthen(rest, elem, result.with_expr(toggled), classes);
        }
    }
}

proof fn class_list_lengthens(props: Seq<Prop>, elem: Seq<char>, result: ResultV, ctx: ContextV)
    ensures
        lengthens(result, class_list_v(props, elem, result, ctx).1),
    decreases props.len(),
{
    if props.len() > 0 {
        if let Some((name, value)) = class_prop(props[0]) {
            let rest = props.skip(1);
            let on = class_toggle_v(elem, name, bool_v(no_span(), true));
            let toggled = class_toggle_v(elem, name, bool_cast_v(no_span(), value@));
            let effect = call_v(
                no_span(),
                el_v("effect"@),
                seq![thunk_v(no_span(), toggled)],
            );
            class_list_lengthens(rest, elem, result.with_expr(on), ctx);
            class_list_lengthens(rest, elem, result, ctx);
            class_list_lengthens(rest, elem, result.with_expr(effect), ctx.register("effect"@));
            class_list_lengthens(rest, elem, result.with_expr(toggled), ctx);
        }
    }
}

proof fn singles_lengthen(
    props: Seq<Prop>,
    marked: bool,
    elem: Seq<char>,
    result: ResultV,
    source: Seq<char>,
    marker: Seq<char>,
)
    ensures
        lengthens(result, singles_v(props, marked, elem, result, source, marker)),
    decreases props.len(),
{
    if props.len() > 0 {
        singles_lengthen(props.drop_last(), marked, elem, result, source, marker);
    }
}

proof fn style_lengthens(
    attr: JsxAttribute,
    elem: Option<Seq<char>>,
    result: ResultV,
    ctx: ContextV,
    options: TransformOptions,
    spacing: bool,
)
    ensures
        lengthens(result, style_v(attr, elem, result, ctx, options, spacing).0),
{
    reveal(style_v);
    assert forall|props: Seq<Prop>, marked: bool, start: ResultV, source: Seq<char>|
        lengthens(
            start,
            #[trigger] singles_v(props, marked, elem->0, start, source, options.static_marker@),
        ) by {
        singles_lengthen(props, marked, elem->0, start, source, options.static_marker@);
    }
}

proof fn late_attribute_lengthens(
    attr: JsxAttribute,
    elem: Option<Seq<char>>,
    has_children: bool,
    state: AttrStateV,
    options: TransformOptions,
    vocabulary: Vocabulary,
)
    ensures
        lengthens(
            state.result,
            late_attribute_v(attr, elem, has_children, state, options, vocabulary).result,
        ),
{
    reveal(late_attribute_v);
    let id = elem->0;
    let result = state.result;
    let ctx = state.ctx;
    style_lengthens(attr, elem, result, ctx, options, state.spacing);
    assert(lengthens(result, style_namespace_v(attr, id, result, ctx).0)) by {
        reveal(style_namespace_v);
    }
    assert(lengthens(result, inner_content_v(attr, id, result, ctx, options).0)) by {
        reveal(inner_content_v);
    }
    assert(lengthens(result, regular_v(attr, id, state, options, vocabulary).result)) by {
        reveal(regular_v);
    }
}

proof fn attribute_lengthens(
    attr: JsxAttribute,
    elem: Option<Seq<char>>,
    has_children: bool,
    state: AttrStateV,
    options: TransformOptions,
    vocabulary: Vocabulary,
)
    ensures
        lengthens(
            state.result,
            attribute_v(attr, elem, has_children, state, options, vocabulary).result,
        ),
{
    reveal(attribute_v);
    let id = elem->0;
    let result = state.result;
    let ctx = state.ctx;
    assert(lengthens(result, ref_v(attr, id, result, ctx).0)) by {
        reveal(ref_v);
    }
    assert(lengthens(result, event_v(attr, id, result, ctx, options, vocabulary).0)) by {
        reveal(event_v);
    }
    assert(lengthens(result, directive_v(attr, id, result, ctx).0)) by {
        reveal(directive_v);
    }
    assert(lengthens(result, bool_attr_v(attr, id, result, ctx, options, state.spacing).0)) by {
        reveal(bool_attr_v);
    }
    if let Some(props) = container_object(attr.value) {
        class_list_lengthens(props@, id, result, ctx);
        let taken = class_list_v(props@, id, result, ctx);
        let next = state.with((taken.1, taken.2));
        late_attribute_lengthens(attr, elem, has_children, next, options, vocabulary);
        class_props_lengthen(props@, id, result, seq![]);
        let object = class_object_v(props@, id, result, options.omit_quotes, state.spacing);
        assert(lengthens(result, object.1)) by {
            reveal(class_object_v);
        }
        let next = AttrStateV { result: object.1, spacing: object.2, ..state };
        late_attribute_lengthens(attr, elem, has_children, next, options, vocabulary);
    }
    late_attribute_lengthens(attr, elem, has_children, state, options, vocabulary);
}

proof fn fold_lengthens(
    attrs: Seq<JsxAttribute>,
    elem: Option<Seq<char>>,
    has_children: bool,
    state: AttrStateV,
    options: TransformOptions,
    vocabulary: Vocabulary,
)
    ensures
        lengthens(
            state.result,
            fold_v(attrs, elem, has_children, state, options, vocabulary).result,
        ),
    decreases attrs.len(),
{
    reveal(fold_v);
    if attrs.len() > 0 {
        let before = fold_v(attrs.drop_last(), elem, has_children, state, options, vocabulary);
        fold_lengthens(attrs.drop_last(), elem, has_children, state, options, vocabulary);
        attribute_lengthens(attrs.last(), elem, has_children, before, options, vocabulary);
    }
}

proof fn classes_lengthen(
    attrs: Seq<JsxAttribute>,
    elem: Option<Seq<char>>,
    has_children: bool,
    state: AttrStateV,
    options: TransformOptions,
    vocabulary: Vocabulary,
)
    ensures
        classes_v(attrs, elem, has_children, state, options, vocabulary) matches Some(next)
            ==> lengthens(state.result, next.result),
{
    reveal(classes_v);
    if attrs.len() == 1 {
        attribute_lengthens(attrs[0], elem, has_children, state, options, vocabulary);
    }
}

proof fn middle_lengthens(
    attrs: Seq<JsxAttribute>,
    elem: Option<Seq<char>>,
    has_children: bool,
    state: AttrStateV,
    options: TransformOptions,
    vocabulary: Vocabulary,
)
    ensures
        lengthens(
            state.result,
            middle_v(attrs, elem, has_children, state, options, vocabulary).result,
        ),
{
    reveal(middle_v);
    let plain = in_group(attrs, AttrGroup::Plain);
    let listeners = in_group(attrs, AttrGroup::Listener).reverse();
    let styles = in_group(attrs, AttrGroup::Style);
    fold_lengthens(plain, elem, has_children, state, options, vocabulary);
    let s1 = fold_v(plain, elem, has_children, state, options, vocabulary);
    fold_lengthens(listeners, elem, has_children, s1, options, vocabulary);
    let s2 = fold_v(listeners, elem, has_children, s1, options, vocabulary);
    fold_lengthens(styles, elem, has_children, s2, options, vocabulary);
}

proof fn ending_lengthens(
    attrs: Seq<JsxAttribute>,
    elem: Option<Seq<char>>,
    has_children: bool,
    state: AttrStateV,
    from: nat,
    options: TransformOptions,
    vocabulary: Vocabulary,
)
    ensures
        lengthens(
            state.result,
            ending_v(attrs, elem, has_children, state, from, options, vocabulary).result,
        ),
{
    reveal(ending_v);
    let names = in_group(attrs, AttrGroup::ClassName);
    fold_lengthens(names, elem, has_children, state, options, vocabulary);
}

/// Attributes are written behind what stands in the templates.
pub proof fn attributes_lengthen(
    attrs: Seq<JsxAttr>,
    has_children: bool,
    result: ResultV,
    ctx: ContextV,
    options: TransformOptions,
    vocabulary: Vocabulary,
)
    ensures
        lengthens(
            result,
            attributes_v(attrs, has_children, result, ctx, options, vocabulary).0,
        ),
{
    reveal(attributes_v);
    let elem = result.id;
    let state = start_v(attrs, elem, has_children, result, ctx, options).0;
    assert(lengthens(result, state.result)) by {
        reveal(start_v);
    }
    let list = left_v(attrs, ctx.source, options);
    ordered_lengthens(list, elem, has_children, state, options, vocabulary);
}

proof fn ordered_lengthens(
    list: Seq<JsxAttribute>,
    elem: Option<Seq<char>>,
    has_children: bool,
    state: AttrStateV,
    options: TransformOptions,
    vocabulary: Vocabulary,
)
    ensures
        lengthens(
            state.result,
            ordered_v(list, elem, has_children, state, options, vocabulary).0.result,
        ),
{
    reveal(ordered_v);
    let from = state.result.dynamics.len();
    let classes = in_group(list, AttrGroup::Class);
    classes_lengthen(classes, elem, has_children, state, options, vocabulary);
    if let Some(next) = classes_v(classes, elem, has_children, state, options, vocabulary) {
        middle_lengthens(list, elem, has_children, next, options, vocabulary);
        let mid = middle_v(list, elem, has_children, next, options, vocabulary);
        ending_lengthens(list, elem, has_children, mid, from, options, vocabulary);
    }
    middle_lengthens(list, elem, has_children, state, options, vocabulary);
    let mid = middle_v(list, elem, has_children, state, options, vocabulary);
    classes_lengthen(classes, elem, has_children, mid, options, vocabulary);
    if let Some(next) = classes_v(classes, elem, has_children, mid, options, vocabulary) {
        ending_lengthens(list, elem, has_children, next, from, options, vocabulary);
    }
}

} // verus!
