//! Which trees can be transformed.
//!
//! An element is given a variable only where it is needed at run time.  The few
//! trees in which an attribute would want the variable of an element that has
//! none, and those that mix the renderers of the dynamic mode, are turned down.

use crate::all_attributes::{any_spread, attrs_in_group, named, named_attrs, AttrGroup};
use crate::ast::{JsxAttribute, JsxChild, JsxElement, JsxValue, Kind};
use crate::attribute::{
    needs_id, object_in_container, regular_needs_id, value_for_template,
};
use crate::element::{child_is_placeable, id_is_needed, is_placeable};
use crate::ir::{result_value, result_values, OutputKind, TransformResult};
use crate::node::is_transformable;
use crate::options::{GenerateMode, TransformOptions};
use crate::outside::same;
use crate::output::can_output;
use crate::peel::peel_wrapped_expression;
use crate::scan::element_needs_runtime_access;
use crate::spread::{any_dynamic, attrs_of, class_parts};
use crate::style::{split_style, style_needs_id};
use crate::text::{has_char, has_prefix};
use crate::vocabulary::Vocabulary;
use vstd::prelude::*;

verus! {

fn regular_attribute_needs_id(attr: &JsxAttribute, vocabulary: &Vocabulary) -> (yes: bool)
    ensures
        yes == regular_needs_id(*attr, *vocabulary),
{
    let is_child = vocabulary.child_property(attr.key.as_str());
    match &attr.value {
        JsxValue::Str { .. } => is_child,
        JsxValue::Container { expr: Some(expr), .. } => {
            let is_bool = match &peel_wrapped_expression(expr).kind {
                Kind::Bool(_) => true,
                _ => false,
            };
            is_child || (value_for_template(expr).is_none() && !is_bool)
        },
        JsxValue::Absent => is_child,
        _ => false,
    }
}

fn style_attribute_needs_id(attr: &JsxAttribute, options: &TransformOptions) -> (yes: bool)
    ensures
        yes == style_needs_id(*attr, *options),
{
    if !options.inline_styles {
        return true;
    }
    match &attr.value {
        JsxValue::Container { expr: Some(expr), .. } => match &expr.kind {
            Kind::Object(props) => {
                let (_, kept) = split_style(props);
                kept.len() > 0
            },
            _ => true,
        },
        _ => false,
    }
}

/// Whether an attribute needs the element at run time.
pub fn attribute_needs_id(
    attr: &JsxAttribute,
    is_svg: bool,
    options: &TransformOptions,
    vocabulary: &Vocabulary,
) -> (yes: bool)
    ensures
        yes == needs_id(*attr, is_svg, *options, *vocabulary),
{
    proof {
        reveal(needs_id);
    }
    let key = attr.key.as_str();
    let is_text = match &attr.value {
        JsxValue::Str { .. } => true,
        _ => false,
    };
    if options.hydratable && same(key, "$ServerOnly") {
        return false;
    }
    if is_svg && same(key, "xmlns") {
        return false;
    }
    if same(key, "ref") || ((has_prefix(key, "on:") || (has_prefix(key, "on") && !has_char(
        key,
        ':',
    ))) && !is_text) || has_prefix(key, "use:") || has_prefix(key, "prop:") || has_prefix(
        key,
        "bool:",
    ) || has_prefix(key, "class:") || has_prefix(key, "style:") {
        return true;
    }
    if (same(key, "classList") || same(key, "class")) && object_in_container(
        &attr.value,
    ).is_some() {
        return true;
    }
    if same(key, "style") {
        return style_attribute_needs_id(attr, options);
    }
    if same(key, "innerHTML") || same(key, "textContent") || same(key, "innerText") {
        return true;
    }
    regular_attribute_needs_id(attr, vocabulary)
}

/// Whether something of an element needs its variable.
pub fn element_needs_id(element: &JsxElement, options: &TransformOptions, vocabulary: &Vocabulary) -> (
    yes: bool)
    ensures
        yes == id_is_needed(*element, *options, *vocabulary),
{
    if any_spread(&element.attrs) {
        return true;
    }
    let is_svg = vocabulary.svg(element.tag.as_str());
    let list = named_attrs(&element.attrs);
    let ghost all = named(element.attrs@);
    let mut i: usize = 0;
    while i < list.len()
        invariant
            i <= list@.len(),
            all == attrs_of(list@),
            all == named(element.attrs@),
            is_svg == vocabulary.is_svg(element.tag@),
            forall|k: int|
                0 <= k < i ==> !needs_id(#[trigger] all[k], is_svg, *options, *vocabulary),
        decreases list@.len() - i,
    {
        if attribute_needs_id(list[i], is_svg, options, vocabulary) {
            proof {
                assert(needs_id(all[i as int], is_svg, *options, *vocabulary));
            }
            return true;
        }
        i = i + 1;
    }
    let classes = attrs_in_group(&list, AttrGroup::Class);
    if any_dynamic(&class_parts(&classes)) {
        return true;
    }
    let given = attrs_in_group(&list, AttrGroup::Children);
    proof {
        assert(attrs_of(given@).len() == given@.len());
    }
    element.children.len() == 0 && given.len() > 0
}

/// Whether an element can be transformed by the DOM renderer.
pub fn can_place(
    element: &JsxElement,
    top_level: bool,
    skip_id: bool,
    options: &TransformOptions,
    vocabulary: &Vocabulary,
) -> (yes: bool)
    ensures
        yes == is_placeable(*element, top_level, skip_id, *options, *vocabulary),
    decreases element, 1nat,
{
    proof {
        reveal_with_fuel(is_placeable, 2);
    }
    let tag = element.tag.as_str();
    if options.hydratable && same(tag, "head") && top_level {
        return true;
    }
    let has_id = !skip_id && (top_level || element_needs_runtime_access(
        element,
        options,
        vocabulary,
    ));
    if !has_id && element_needs_id(element, options, vocabulary) {
        return false;
    }
    vocabulary.void(tag) || same(tag, "noscript") || can_place_all(
        &element.children,
        skip_id,
        options,
        vocabulary,
    )
}

fn can_place_all(
    children: &Vec<JsxChild>,
    skip_id: bool,
    options: &TransformOptions,
    vocabulary: &Vocabulary,
) -> (yes: bool)
    ensures
        yes == forall|i: int|
            0 <= i < children@.len() ==> child_is_placeable(
                #[trigger] children@[i],
                skip_id,
                *options,
                *vocabulary,
            ),
    decreases children, 1nat,
{
    let mut i: usize = 0;
    while i < children.len()
        invariant
            i <= children@.len(),
            forall|k: int|
                0 <= k < i ==> child_is_placeable(
                    #[trigger] children@[k],
                    skip_id,
                    *options,
                    *vocabulary,
                ),
        decreases children@.len() - i,
    {
        if !can_place_child(&children[i], skip_id, options, vocabulary) {
            return false;
        }
        i = i + 1;
    }
    true
}

fn can_place_child(
    child: &JsxChild,
    skip_id: bool,
    options: &TransformOptions,
    vocabulary: &Vocabulary,
) -> (yes: bool)
    ensures
        yes == child_is_placeable(*child, skip_id, *options, *vocabulary),
    decreases child, 0nat,
{
    proof {
        reveal_with_fuel(child_is_placeable, 2);
    }
    match child {
        JsxChild::Element(element) => {
            let dynamic = match options.generate {
                GenerateMode::Dynamic => true,
                _ => false,
            };
            element.is_component || (!(dynamic && options.should_use_universal_for_intrinsic(
                element.tag.as_str(),
            )) && can_place(element, false, skip_id, options, vocabulary))
        },
        JsxChild::Fragment(fragment) => can_place_all(
            &fragment.children,
            skip_id,
            options,
            vocabulary,
        ),
        _ => true,
    }
}

/// Whether a child, and all that is transformed with it, can be transformed.
pub fn can_transform(
    child: &JsxChild,
    top_level: bool,
    skip_id: bool,
    options: &TransformOptions,
    vocabulary: &Vocabulary,
) -> (yes: bool)
    ensures
        yes == is_transformable(*child, top_level, skip_id, *options, *vocabulary),
    decreases child, 0nat,
{
    proof {
        reveal_with_fuel(is_transformable, 2);
    }
    match child {
        JsxChild::Element(element) => {
            if element.is_component {
                true
            } else if options.should_use_universal_for_intrinsic(element.tag.as_str()) {
                can_transform_all(&element.children, top_level, skip_id, options, vocabulary)
            } else {
                can_place(element, top_level, skip_id, options, vocabulary)
            }
        },
        JsxChild::Fragment(fragment) => can_transform_all(
            &fragment.children,
            true,
            skip_id,
            options,
            vocabulary,
        ),
        _ => true,
    }
}

/// Whether children can be transformed.
pub fn can_transform_all(
    children: &Vec<JsxChild>,
    top_level: bool,
    skip_id: bool,
    options: &TransformOptions,
    vocabulary: &Vocabulary,
) -> (yes: bool)
    ensures
        yes == forall|i: int|
            0 <= i < children@.len() ==> is_transformable(
                #[trigger] children@[i],
                top_level,
                skip_id,
                *options,
                *vocabulary,
            ),
    decreases children, 1nat,
{
    let mut i: usize = 0;
    while i < children.len()
        invariant
            i <= children@.len(),
            forall|k: int|
                0 <= k < i ==> is_transformable(
                    #[trigger] children@[k],
                    top_level,
                    skip_id,
                    *options,
                    *vocabulary,
                ),
        decreases children@.len() - i,
    {
        if !can_transform(&children[i], top_level, skip_id, options, vocabulary) {
            return false;
        }
        i = i + 1;
    }
    true
}

/// Whether a result can be put out.
pub fn can_put_out(result: &TransformResult, hydratable: bool) -> (yes: bool)
    ensures
        yes == can_output(result@, hydratable),
    decreases result,
{
    proof {
        reveal(result_value);
        reveal_with_fuel(can_output, 2);
    }
    if result.child_results.len() == 0 {
        return hydratable || !result.skip_template || result.text || result.template.as_str().unicode_len()
            == 0;
    }
    let mut i: usize = 0;
    while i < result.child_results.len()
        invariant
            i <= result.child_results@.len(),
            result@.child_results.len() == result.child_results@.len(),
            result@.child_results == result_values(result.child_results@),
            forall|k: int|
                0 <= k < i ==> match (#[trigger] result@.child_results[k]).output_kind {
                    OutputKind::Universal => result@.child_results[k].universal_output is Some,
                    OutputKind::Dom => can_output(result@.child_results[k], hydratable),
                },
        decreases result.child_results@.len() - i,
    {
        let child = &result.child_results[i];
        proof {
            reveal(result_value);
            assert(result@.child_results[i as int] == child@);
        }
        let fine = match child.output_kind {
            OutputKind::Universal => child.universal_output.is_some(),
            OutputKind::Dom => can_put_out(child, hydratable),
        };
        if !fine {
            return false;
        }
        i = i + 1;
    }
    true
}

} // verus!
