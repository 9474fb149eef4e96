//! All attributes of an element, in the order in which they take effect.

use crate::ast::{Expr, ExprV, JsxAttr, JsxAttribute, JsxValue, Kind, Span};
use crate::attribute::{attribute_v, needs_id, transform_attribute, AttrStateV};
use crate::attributes::inline_attribute_on_template;
use crate::frame::{attribute_keeps, same_element, same_setting};
use crate::ir::{
    binding_values, opt, result_value, BindingV, BlockContext, ContextV, DynamicBinding, ResultV,
    TransformResult,
};
use crate::marker::static_marker;
use crate::options::TransformOptions;
use crate::outside::{same, share};
use crate::peel::{peel_wrapped_expression, peeled};
use crate::spread::{
    attrs_of, build_merged_class_value, class_parts_v, has_dynamic_part, merged_class_v,
    process_spreads, spread_call_v, spreads_v, MergedClass, MergedClassV,
};
use crate::text::{has_prefix, starts_with};
use crate::vocabulary::Vocabulary;
use std::rc::Rc;
use vstd::prelude::*;

verus! {



/// Some attribute is a spread.
pub open spec fn has_spread(attrs: Seq<JsxAttr>) -> bool {
    exists|i: int| 0 <= i < attrs.len() && (#[trigger] attrs[i]) is Spread
}

/// The attributes that are no spreads.
#[verifier::opaque]
pub open spec fn named(attrs: Seq<JsxAttr>) -> Seq<JsxAttribute>
    decreases attrs.len(),
{
    if attrs.len() == 0 {
        seq![]
    } else {
        let head = named(attrs.drop_last());
        match attrs.last() {
            JsxAttr::Named(attr) => head.push(attr),
            JsxAttr::Spread { .. } => head,
        }
    }
}

/// How an attribute is dealt with.
#[derive(Clone, Copy, Debug, PartialEq, Eq, Structural)]
pub enum AttrGroup {
    Class,
    ClassName,
    /// Children that are given as an attribute.
    Children,
    /// A listener of the `on:` namespace.
    Listener,
    /// A style that is a string.
    Style,
    Plain,
}

/// The expression of children that are given as an attribute, unless it is a
/// literal.
pub open spec fn children_expr(attr: JsxAttribute) -> Option<(Span, Rc<Expr>)> {
    match attr.value {
        JsxValue::Container { span, expr: Some(expr), .. } => if peeled(*expr).kind is Str
            || peeled(*expr).kind is Num || peeled(*expr).kind is Bool {
            None
        } else {
            Some((span, expr))
        },
        _ => None,
    }
}

pub open spec fn group_of(attr: JsxAttribute) -> AttrGroup {
    let key = attr.key@;
    if key == "class"@ {
        AttrGroup::Class
    } else if key == "className"@ {
        AttrGroup::ClassName
    } else if key == "children"@ && children_expr(attr) is Some {
        AttrGroup::Children
    } else if starts_with(key, "on:"@) {
        AttrGroup::Listener
    } else if key == "style"@ && attr.value is Str {
        AttrGroup::Style
    } else {
        AttrGroup::Plain
    }
}

/// The attributes of one group.
#[verifier::opaque]
pub open spec fn in_group(attrs: Seq<JsxAttribute>, group: AttrGroup) -> Seq<JsxAttribute>
    decreases attrs.len(),
{
    if attrs.len() == 0 {
        seq![]
    } else {
        let head = in_group(attrs.drop_last(), group);
        if group_of(attrs.last()) == group {
            head.push(attrs.last())
        } else {
            head
        }
    }
}

/// An attribute that is not a class.
pub open spec fn is_other(attr: JsxAttribute) -> bool {
    group_of(attr) != AttrGroup::Class && group_of(attr) != AttrGroup::ClassName
}

/// Of the attributes, a class comes before any that is not a class, and there
/// is one of these.
#[verifier::opaque]
pub open spec fn class_first(attrs: Seq<JsxAttribute>) -> bool
    decreases attrs.len(),
{
    if attrs.len() == 0 || is_other(attrs[0]) {
        false
    } else if group_of(attrs[0]) == AttrGroup::Class {
        has_other(attrs)
    } else {
        class_first(attrs.skip(1))
    }
}

pub open spec fn has_other(attrs: Seq<JsxAttribute>) -> bool {
    exists|i: int| 0 <= i < attrs.len() && is_other(#[trigger] attrs[i])
}

/// The attributes, one after the other.
#[verifier::opaque]
pub open spec fn fold_v(
    attrs: Seq<JsxAttribute>,
    elem: Option<Seq<char>>,
    has_children: bool,
    state: AttrStateV,
    options: TransformOptions,
    vocabulary: Vocabulary,
) -> AttrStateV
    decreases attrs.len(),
{
    if attrs.len() == 0 {
        state
    } else {
        attribute_v(
            attrs.last(),
            elem,
            has_children,
            fold_v(attrs.drop_last(), elem, has_children, state, options, vocabulary),
            options,
            vocabulary,
        )
    }
}

/// The class attributes: `None` where there are several and none of them says
/// anything.
#[verifier::opaque]
pub open spec fn classes_v(
    attrs: Seq<JsxAttribute>,
    elem: Option<Seq<char>>,
    has_children: bool,
    state: AttrStateV,
    options: TransformOptions,
    vocabulary: Vocabulary,
) -> Option<AttrStateV> {
    if attrs.len() == 0 {
        Some(state)
    } else if attrs.len() == 1 {
        Some(attribute_v(attrs[0], elem, has_children, state, options, vocabulary))
    } else {
        match merged_class_v(attrs) {
            None => None,
            Some(MergedClassV::Static(text)) => if text.len() > 0 {
                Some(state.inlined("class"@, Some(text), options))
            } else {
                Some(state)
            },
            Some(MergedClassV::Dynamic(expr)) => Some(
                state.with_result(
                    state.result.with_binding(
                        state.result.binding(elem->0, "class"@, expr),
                    ),
                ),
            ),
        }
    }
}

/// Children that are given as an attribute: the last, where the element has no
/// children of its own, with whether they are marked as static.
#[verifier::opaque]
pub open spec fn synthetic_v(
    attrs: Seq<JsxAttribute>,
    has_children: bool,
    source: Seq<char>,
    marker: Seq<char>,
) -> Option<(Rc<Expr>, bool)> {
    let given = in_group(attrs, AttrGroup::Children);
    if has_children || given.len() == 0 {
        None
    } else {
        let (span, expr) = children_expr(given.last())->0;
        Some((expr, static_marker(source, span, marker)))
    }
}

/// The bindings of classes before the others, from a position on.
pub open spec fn classes_up(bindings: Seq<BindingV>, from: int) -> Seq<BindingV> {
    let tail = bindings.skip(from);
    bindings.take(from) + class_bindings(tail, true) + class_bindings(tail, false)
}

/// The bindings that are, or are not, of classes.
pub open spec fn class_bindings(bindings: Seq<BindingV>, wanted: bool) -> Seq<BindingV>
    decreases bindings.len(),
{
    if bindings.len() == 0 {
        seq![]
    } else {
        let head = class_bindings(bindings.drop_last(), wanted);
        let key = bindings.last().key;
        if (key == "class"@ || key == "className"@) == wanted {
            head.push(bindings.last())
        } else {
            head
        }
    }
}

/// Plain attributes, then listeners from the last to the first, then string
/// styles.
#[verifier::opaque]
pub open spec fn middle_v(
    attrs: Seq<JsxAttribute>,
    elem: Option<Seq<char>>,
    has_children: bool,
    state: AttrStateV,
    options: TransformOptions,
    vocabulary: Vocabulary,
) -> AttrStateV {
    let plain = in_group(attrs, AttrGroup::Plain);
    let listeners = in_group(attrs, AttrGroup::Listener).reverse();
    let styles = in_group(attrs, AttrGroup::Style);
    let s1 = fold_v(plain, elem, has_children, state, options, vocabulary);
    let s2 = fold_v(listeners, elem, has_children, s1, options, vocabulary);
    fold_v(styles, elem, has_children, s2, options, vocabulary)
}

/// Class names come last.  On SVG with a class in front, the bindings of
/// classes that were made since `from` go before the others.
#[verifier::opaque]
pub open spec fn ending_v(
    attrs: Seq<JsxAttribute>,
    elem: Option<Seq<char>>,
    has_children: bool,
    state: AttrStateV,
    from: nat,
    options: TransformOptions,
    vocabulary: Vocabulary,
) -> AttrStateV {
    let names = in_group(attrs, AttrGroup::ClassName);
    let end = fold_v(names, elem, has_children, state, options, vocabulary);
    if end.result.is_svg && class_first(attrs) && from < end.result.dynamics.len() {
        end.with_result(
            ResultV { dynamics: classes_up(end.result.dynamics, from as int), ..end.result },
        )
    } else {
        end
    }
}

/// How far the attributes were transformed.  Several classes that say nothing
/// end it: the attributes that would follow are dropped.
#[derive(Clone, Copy, Debug, PartialEq, Eq, Structural)]
pub enum Progress {
    AtFirstClasses,
    AtLastClasses,
    Finished,
}

/// The attributes in their order of effect, without spreads: classes first
/// where one stands in front, else behind the others.
#[verifier::opaque]
pub open spec fn ordered_v(
    attrs: Seq<JsxAttribute>,
    elem: Option<Seq<char>>,
    has_children: bool,
    state: AttrStateV,
    options: TransformOptions,
    vocabulary: Vocabulary,
) -> (AttrStateV, Progress) {
    let classes = in_group(attrs, AttrGroup::Class);
    let from = state.result.dynamics.len();
    if class_first(attrs) && !state.result.is_svg {
        match classes_v(classes, elem, has_children, state, options, vocabulary) {
            None => (state, Progress::AtFirstClasses),
            Some(next) => {
                let mid = middle_v(attrs, elem, has_children, next, options, vocabulary);
                (ending_v(attrs, elem, has_children, mid, from, options, vocabulary), Progress::Finished)
            },
        }
    } else {
        let mid = middle_v(attrs, elem, has_children, state, options, vocabulary);
        match classes_v(classes, elem, has_children, mid, options, vocabulary) {
            None => (mid, Progress::AtLastClasses),
            Some(next) => (
                ending_v(attrs, elem, has_children, next, from, options, vocabulary),
                Progress::Finished,
            ),
        }
    }
}

/// The attributes that are left when spreads have taken theirs.
#[verifier::opaque]
pub open spec fn left_v(
    attrs: Seq<JsxAttr>,
    source: Seq<char>,
    options: TransformOptions,
) -> Seq<JsxAttribute> {
    if has_spread(attrs) {
        spreads_v(attrs, source, options.static_marker@).left
    } else {
        named(attrs)
    }
}

/// The state in which the attributes begin: a spread is called for where there
/// is one.
#[verifier::opaque]
pub open spec fn start_v(
    attrs: Seq<JsxAttr>,
    elem: Option<Seq<char>>,
    has_children: bool,
    result: ResultV,
    ctx: ContextV,
    options: TransformOptions,
) -> (AttrStateV, Option<ExprV>) {
    if has_spread(attrs) {
        let spread = spread_call_v(attrs, elem->0, has_children, ctx, options);
        (
            AttrStateV {
                result: ResultV {
                    has_hydratable_event: result.has_hydratable_event || (spread.1 is Some
                        && options.hydratable),
                    ..result
                },
                ctx: spread.0,
                placeholder: false,
                spacing: true,
            },
            spread.1,
        )
    } else {
        (AttrStateV { result, ctx, placeholder: false, spacing: true }, None)
    }
}

/// All attributes of an element: the result, the context, whether a text
/// placeholder is needed, and children that were given as an attribute.
#[verifier::opaque]
pub open spec fn attributes_v(
    attrs: Seq<JsxAttr>,
    has_children: bool,
    result: ResultV,
    ctx: ContextV,
    options: TransformOptions,
    vocabulary: Vocabulary,
) -> (ResultV, ContextV, bool, Option<(Rc<Expr>, bool)>) {
    let elem = result.id;
    let start = start_v(attrs, elem, has_children, result, ctx, options);
    let list = left_v(attrs, ctx.source, options);
    let done = ordered_v(list, elem, has_children, start.0, options, vocabulary);
    let synthetic = if done.1 == Progress::AtFirstClasses {
        None
    } else {
        synthetic_v(list, has_children, ctx.source, options.static_marker@)
    };
    (
        match start.1 {
            Some(spread) => if done.1 == Progress::Finished {
                done.0.result.with_expr(spread)
            } else {
                done.0.result
            },
            None => done.0.result,
        },
        done.0.ctx,
        done.0.placeholder,
        synthetic,
    )
}

/// Some attribute needs the element at run time.
pub open spec fn attributes_need_id(
    attrs: Seq<JsxAttr>,
    is_svg: bool,
    options: TransformOptions,
    vocabulary: Vocabulary,
) -> bool {
    ||| has_spread(attrs)
    ||| exists|i: int|
        0 <= i < named(attrs).len() && needs_id(
            #[trigger] named(attrs)[i],
            is_svg,
            options,
            vocabulary,
        )
    ||| has_dynamic_part(class_parts_v(in_group(named(attrs), AttrGroup::Class)))
}

// ---------------------------------------------------------------------------
// Lemmas
// ---------------------------------------------------------------------------

proof fn in_group_is_from(attrs: Seq<JsxAttribute>, group: AttrGroup, i: int)
    requires
        0 <= i < in_group(attrs, group).len(),
    ensures
        exists|k: int| 0 <= k < attrs.len() && attrs[k] == in_group(attrs, group)[i],
        group_of(in_group(attrs, group)[i]) == group,
    decreases attrs.len(),
{
    reveal(in_group);
    let head = in_group(attrs.drop_last(), group);
    if i < head.len() {
        in_group_is_from(attrs.drop_last(), group, i);
        let k = choose|k: int|
            0 <= k < attrs.drop_last().len() && attrs.drop_last()[k] == head[i];
        assert(attrs[k] == in_group(attrs, group)[i]);
    } else {
        assert(attrs[attrs.len() - 1] == in_group(attrs, group)[i]);
    }
}

/// None of the attributes needs the element, unless it is there.
#[verifier::opaque]
pub open spec fn id_suffices(
    attrs: Seq<JsxAttribute>,
    elem: Option<Seq<char>>,
    is_svg: bool,
    options: TransformOptions,
    vocabulary: Vocabulary,
) -> bool {
    elem is Some || forall|i: int|
        0 <= i < attrs.len() ==> !needs_id(#[trigger] attrs[i], is_svg, options, vocabulary)
}

proof fn group_suffices(
    attrs: Seq<JsxAttribute>,
    group: AttrGroup,
    elem: Option<Seq<char>>,
    is_svg: bool,
    options: TransformOptions,
    vocabulary: Vocabulary,
)
    requires
        id_suffices(attrs, elem, is_svg, options, vocabulary),
    ensures
        id_suffices(in_group(attrs, group), elem, is_svg, options, vocabulary),
        id_suffices(in_group(attrs, group).reverse(), elem, is_svg, options, vocabulary),
{
    reveal(id_suffices);
    if elem is None {
        let chosen = in_group(attrs, group);
        assert forall|i: int| 0 <= i < chosen.len() implies !needs_id(
            #[trigger] chosen[i],
            is_svg,
            options,
            vocabulary,
        ) by {
            in_group_is_from(attrs, group, i);
            let k = choose|k: int| 0 <= k < attrs.len() && attrs[k] == chosen[i];
            assert(!needs_id(attrs[k], is_svg, options, vocabulary));
        }
        assert forall|i: int| 0 <= i < chosen.reverse().len() implies !needs_id(
            #[trigger] chosen.reverse()[i],
            is_svg,
            options,
            vocabulary,
        ) by {
            assert(!needs_id(chosen[chosen.len() - 1 - i], is_svg, options, vocabulary));
        }
    }
}

proof fn fold_keeps(
    attrs: Seq<JsxAttribute>,
    elem: Option<Seq<char>>,
    has_children: bool,
    state: AttrStateV,
    options: TransformOptions,
    vocabulary: Vocabulary,
)
    ensures
        same_element(
            fold_v(attrs, elem, has_children, state, options, vocabulary).result,
            state.result,
        ),
        same_setting(
            fold_v(attrs, elem, has_children, state, options, vocabulary).ctx,
            state.ctx,
        ),
    decreases attrs.len(),
{
    reveal(fold_v);
    if attrs.len() > 0 {
        fold_keeps(attrs.drop_last(), elem, has_children, state, options, vocabulary);
        attribute_keeps(
            attrs.last(),
            elem,
            has_children,
            fold_v(attrs.drop_last(), elem, has_children, state, options, vocabulary),
            options,
            vocabulary,
        );
    }
}

proof fn classes_keep(
    attrs: Seq<JsxAttribute>,
    elem: Option<Seq<char>>,
    has_children: bool,
    state: AttrStateV,
    options: TransformOptions,
    vocabulary: Vocabulary,
)
    ensures
        match classes_v(attrs, elem, has_children, state, options, vocabulary) {
            Some(next) => same_element(next.result, state.result) && same_setting(
                next.ctx,
                state.ctx,
            ),
            None => true,
        },
{
    reveal(classes_v);
    if attrs.len() == 1 {
        attribute_keeps(attrs[0], elem, has_children, state, options, vocabulary);
    }
}

// ---------------------------------------------------------------------------
// Execution
// ---------------------------------------------------------------------------

/// A spread stands among the attributes.
pub fn any_spread(attrs: &Vec<JsxAttr>) -> (yes: bool)
    ensures
        yes == has_spread(attrs@),
{
    let mut i: usize = 0;
    while i < attrs.len()
        invariant
            i <= attrs.len(),
            forall|k: int| 0 <= k < i ==> !((#[trigger] attrs@[k]) is Spread),
        decreases attrs.len() - i,
    {
        let spread = match &attrs[i] {
            JsxAttr::Spread { .. } => true,
            JsxAttr::Named(_) => false,
        };
        if spread {
            proof {
                assert(attrs@[i as int] is Spread);
            }
            return true;
        }
        i = i + 1;
    }
    false
}

pub fn named_attrs<'e>(attrs: &'e Vec<JsxAttr>) -> (list: Vec<&'e JsxAttribute>)
    ensures
        attrs_of(list@) == named(attrs@),
{
    proof {
        reveal(named);
    }
    let mut list: Vec<&'e JsxAttribute> = Vec::new();
    let mut i: usize = 0;
    proof {
        assert(attrs_of(list@) =~= named(attrs@.take(0)));
    }
    while i < attrs.len()
        invariant
            i <= attrs.len(),
            attrs_of(list@) == named(attrs@.take(i as int)),
        decreases attrs.len() - i,
    {
        proof {
            reveal(named);
            assert(attrs@.take(i + 1).drop_last() =~= attrs@.take(i as int));
            assert(attrs@.take(i + 1).last() == attrs@[i as int]);
        }
        if let JsxAttr::Named(attr) = &attrs[i] {
            let ghost before = attrs_of(list@);
            list.push(attr);
            proof {
                assert(attrs_of(list@) =~= before.push(*attr));
            }
        }
        i = i + 1;
    }
    proof {
        assert(attrs@.take(i as int) =~= attrs@);
    }
    list
}

fn expr_of_children(attr: &JsxAttribute) -> (given: Option<(Span, Rc<Expr>)>)
    ensures
        given == children_expr(*attr),
{
    match &attr.value {
        JsxValue::Container { span, expr: Some(expr), .. } => {
            let literal = match &peel_wrapped_expression(expr).kind {
                Kind::Str(_) => true,
                Kind::Num(_) => true,
                Kind::Bool(_) => true,
                _ => false,
            };
            if literal {
                None
            } else {
                Some((*span, share(expr)))
            }
        },
        _ => None,
    }
}

fn attr_group(attr: &JsxAttribute) -> (group: AttrGroup)
    ensures
        group == group_of(*attr),
{
    let key = attr.key.as_str();
    let is_string = match &attr.value {
        JsxValue::Str { .. } => true,
        _ => false,
    };
    if same(key, "class") {
        AttrGroup::Class
    } else if same(key, "className") {
        AttrGroup::ClassName
    } else if same(key, "children") && expr_of_children(attr).is_some() {
        AttrGroup::Children
    } else if has_prefix(key, "on:") {
        AttrGroup::Listener
    } else if same(key, "style") && is_string {
        AttrGroup::Style
    } else {
        AttrGroup::Plain
    }
}

pub fn attrs_in_group<'e>(attrs: &Vec<&'e JsxAttribute>, group: AttrGroup) -> (chosen: Vec<
    &'e JsxAttribute,
>)
    ensures
        attrs_of(chosen@) == in_group(attrs_of(attrs@), group),
{
    proof {
        reveal(in_group);
    }
    let ghost all = attrs_of(attrs@);
    let mut chosen: Vec<&'e JsxAttribute> = Vec::new();
    let mut i: usize = 0;
    proof {
        assert(attrs_of(chosen@) =~= in_group(all.take(0), group));
    }
    while i < attrs.len()
        invariant
            i <= attrs.len(),
            all == attrs_of(attrs@),
            attrs_of(chosen@) == in_group(all.take(i as int), group),
        decreases attrs.len() - i,
    {
        proof {
            reveal(in_group);
            assert(all.take(i + 1).drop_last() =~= all.take(i as int));
            assert(all.take(i + 1).last() == *attrs@[i as int]);
        }
        if attr_group(attrs[i]) == group {
            let ghost before = attrs_of(chosen@);
            chosen.push(attrs[i]);
            proof {
                assert(attrs_of(chosen@) =~= before.push(*attrs@[i as int]));
            }
        }
        i = i + 1;
    }
    proof {
        assert(all.take(i as int) =~= all);
    }
    chosen
}

fn reversed<'e>(attrs: &Vec<&'e JsxAttribute>) -> (turned: Vec<&'e JsxAttribute>)
    ensures
        attrs_of(turned@) == attrs_of(attrs@).reverse(),
{
    let mut turned: Vec<&'e JsxAttribute> = Vec::new();
    let n: usize = attrs.len();
    let mut i: usize = 0;
    while i < n
        invariant
            i <= n == attrs.len(),
            turned@.len() == i,
            forall|k: int| 0 <= k < i ==> #[trigger] turned@[k] == attrs@[n - 1 - k],
        decreases n - i,
    {
        turned.push(attrs[n - 1 - i]);
        i = i + 1;
    }
    proof {
        assert(attrs_of(turned@) =~= attrs_of(attrs@).reverse());
    }
    turned
}

fn any_other(attrs: &Vec<&JsxAttribute>) -> (yes: bool)
    ensures
        yes == has_other(attrs_of(attrs@)),
{
    let ghost all = attrs_of(attrs@);
    let mut i: usize = 0;
    while i < attrs.len()
        invariant
            i <= attrs.len(),
            all == attrs_of(attrs@),
            forall|k: int| 0 <= k < i ==> !is_other(#[trigger] all[k]),
        decreases attrs.len() - i,
    {
        let group = attr_group(attrs[i]);
        if group != AttrGroup::Class && group != AttrGroup::ClassName {
            proof {
                assert(is_other(all[i as int]));
            }
            return true;
        }
        i = i + 1;
    }
    false
}

/// A list has an attribute that is no class where its rest has, if what comes
/// before are classes.
proof fn has_other_of_rest(attrs: Seq<JsxAttribute>, n: int)
    requires
        0 <= n <= attrs.len(),
        forall|k: int| 0 <= k < n ==> !is_other(#[trigger] attrs[k]),
    ensures
        has_other(attrs.skip(n)) == has_other(attrs),
{
    let rest = attrs.skip(n);
    if has_other(attrs) {
        let k = choose|k: int| 0 <= k < attrs.len() && is_other(#[trigger] attrs[k]);
        assert(is_other(rest[k - n]));
    }
    if has_other(rest) {
        let k = choose|k: int| 0 <= k < rest.len() && is_other(#[trigger] rest[k]);
        assert(is_other(attrs[k + n]));
    }
}

fn class_comes_first(attrs: &Vec<&JsxAttribute>) -> (yes: bool)
    ensures
        yes == class_first(attrs_of(attrs@)),
{
    proof {
        reveal(class_first);
    }
    let ghost all = attrs_of(attrs@);
    let mut i: usize = 0;
    proof {
        assert(all.skip(0) =~= all);
    }
    while i < attrs.len()
        invariant
            i <= attrs.len(),
            all == attrs_of(attrs@),
            class_first(all) == class_first(all.skip(i as int)),
            forall|k: int| 0 <= k < i ==> !is_other(#[trigger] all[k]),
        decreases attrs.len() - i,
    {
        proof {
            reveal(class_first);
            assert(all.skip(i as int)[0] == *attrs@[i as int]);
            assert(all.skip(i as int).skip(1) =~= all.skip(i + 1));
            has_other_of_rest(all, i as int);
        }
        let group = attr_group(attrs[i]);
        if group == AttrGroup::Class {
            return any_other(attrs);
        }
        if group != AttrGroup::ClassName {
            return false;
        }
        proof {
            assert(!is_other(all[i as int]));
        }
        i = i + 1;
    }
    false
}

fn transform_each(
    attrs: &Vec<&JsxAttribute>,
    elem_id: &Option<String>,
    result: &mut TransformResult,
    context: &mut BlockContext,
    options: &TransformOptions,
    vocabulary: &Vocabulary,
    has_children: bool,
    needs_placeholder: &mut bool,
    needs_spacing: &mut bool,
)
    requires
        id_suffices(
            attrs_of(attrs@),
            opt(*elem_id),
            old(result)@.is_svg,
            *options,
            *vocabulary,
        ),
    ensures
        (AttrStateV {
            result: final(result)@,
            ctx: final(context)@,
            placeholder: *final(needs_placeholder),
            spacing: *final(needs_spacing),
        }) == fold_v(
            attrs_of(attrs@),
            opt(*elem_id),
            has_children,
            AttrStateV {
                result: old(result)@,
                ctx: old(context)@,
                placeholder: *old(needs_placeholder),
                spacing: *old(needs_spacing),
            },
            *options,
            *vocabulary,
        ),
{
    proof {
        reveal(fold_v);
    }
    let ghost all = attrs_of(attrs@);
    let ghost start = AttrStateV {
        result: result@,
        ctx: context@,
        placeholder: *needs_placeholder,
        spacing: *needs_spacing,
    };
    let mut i: usize = 0;
    while i < attrs.len()
        invariant
            i <= attrs.len(),
            all == attrs_of(attrs@),
            id_suffices(all, opt(*elem_id), start.result.is_svg, *options, *vocabulary),
            (AttrStateV {
                result: result@,
                ctx: context@,
                placeholder: *needs_placeholder,
                spacing: *needs_spacing,
            }) == fold_v(
                all.take(i as int),
                opt(*elem_id),
                has_children,
                start,
                *options,
                *vocabulary,
            ),
        decreases attrs.len() - i,
    {
        proof {
            reveal(fold_v);
            reveal(id_suffices);
            assert(all.take(i + 1).drop_last() =~= all.take(i as int));
            assert(all.take(i + 1).last() == *attrs@[i as int]);
            assert(all[i as int] == *attrs@[i as int]);
            fold_keeps(
                all.take(i as int),
                opt(*elem_id),
                has_children,
                start,
                *options,
                *vocabulary,
            );
        }
        transform_attribute(
            attrs[i],
            elem_id,
            result,
            context,
            options,
            vocabulary,
            has_children,
            needs_placeholder,
            needs_spacing,
        );
        i = i + 1;
    }
    proof {
        assert(all.take(i as int) =~= all);
    }
}

fn transform_classes(
    attrs: &Vec<&JsxAttribute>,
    elem_id: &Option<String>,
    result: &mut TransformResult,
    context: &mut BlockContext,
    options: &TransformOptions,
    vocabulary: &Vocabulary,
    has_children: bool,
    needs_placeholder: &mut bool,
    needs_spacing: &mut bool,
) -> (done: bool)
    requires
        id_suffices(
            attrs_of(attrs@),
            opt(*elem_id),
            old(result)@.is_svg,
            *options,
            *vocabulary,
        ),
        elem_id is Some || !has_dynamic_part(class_parts_v(attrs_of(attrs@))),
    ensures
        match classes_v(
            attrs_of(attrs@),
            opt(*elem_id),
            has_children,
            AttrStateV {
                result: old(result)@,
                ctx: old(context)@,
                placeholder: *old(needs_placeholder),
                spacing: *old(needs_spacing),
            },
            *options,
            *vocabulary,
        ) {
            Some(state) => done && (AttrStateV {
                result: final(result)@,
                ctx: final(context)@,
                placeholder: *final(needs_placeholder),
                spacing: *final(needs_spacing),
            }) == state,
            None => !done && final(result)@ == old(result)@ && final(context)@ == old(context)@
                && *final(needs_placeholder) == *old(needs_placeholder) && *final(needs_spacing)
                == *old(needs_spacing),
        },
{
    proof {
        reveal(id_suffices);
    }
    proof {
        reveal(classes_v);
    }
    if attrs.len() == 0 {
        return true;
    }
    if attrs.len() == 1 {
        proof {
            assert(attrs_of(attrs@)[0] == *attrs@[0]);
        }
        transform_attribute(
            attrs[0],
            elem_id,
            result,
            context,
            options,
            vocabulary,
            has_children,
            needs_placeholder,
            needs_spacing,
        );
        return true;
    }
    match build_merged_class_value(attrs) {
        None => false,
        Some(MergedClass::Static(text)) => {
            if !text.as_str().is_empty() {
                inline_attribute_on_template(
                    result,
                    "class",
                    Some(text.as_str()),
                    options.omit_quotes,
                    needs_spacing,
                );
            }
            true
        },
        Some(MergedClass::Dynamic(expr)) => {
            let id = match elem_id {
                Some(id) => id.as_str(),
                None => "",
            };
            result.bind(id, "class", expr);
            true
        },
    }
}

fn is_class_binding(binding: &DynamicBinding) -> (yes: bool)
    ensures
        yes == (binding@.key == "class"@ || binding@.key == "className"@),
{
    same(binding.key.as_str(), "class") || same(binding.key.as_str(), "className")
}

fn copied_binding(binding: &DynamicBinding) -> (copy: DynamicBinding)
    ensures
        copy@ == binding@,
{
    DynamicBinding {
        elem: binding.elem.clone(),
        key: binding.key.clone(),
        value: share(&binding.value),
        is_svg: binding.is_svg,
        is_ce: binding.is_ce,
        tag_name: binding.tag_name.clone(),
    }
}

/// Appends the bindings from a position on that are, or are not, of classes.
fn push_bindings(
    list: &mut Vec<DynamicBinding>,
    bindings: &Vec<DynamicBinding>,
    from: usize,
    wanted: bool,
)
    requires
        from <= bindings.len(),
    ensures
        binding_values(final(list)@) == binding_values(old(list)@) + class_bindings(
            binding_values(bindings@).skip(from as int),
            wanted,
        ),
{
    let ghost tail = binding_values(bindings@).skip(from as int);
    let ghost before = binding_values(list@);
    let mut i: usize = from;
    proof {
        assert(before + class_bindings(tail.take(0), wanted) =~= before);
    }
    while i < bindings.len()
        invariant
            from <= i <= bindings.len(),
            tail == binding_values(bindings@).skip(from as int),
            binding_values(list@) == before + class_bindings(tail.take(i - from), wanted),
        decreases bindings.len() - i,
    {
        let ghost n = i - from;
        proof {
            assert(tail.take(n + 1).drop_last() =~= tail.take(n));
            assert(tail.take(n + 1).last() == bindings@[i as int]@);
        }
        if is_class_binding(&bindings[i]) == wanted {
            let copy = copied_binding(&bindings[i]);
            let ghost seen = binding_values(list@);
            list.push(copy);
            proof {
                assert(binding_values(list@) =~= seen.push(copy@));
                assert(before + class_bindings(tail.take(n), wanted).push(copy@)
                    =~= binding_values(list@));
            }
        }
        i = i + 1;
    }
    proof {
        assert(tail.take(i - from) =~= tail);
    }
}

fn reorder_dynamics(result: &mut TransformResult, from: usize)
    requires
        from <= old(result)@.dynamics.len(),
    ensures
        final(result)@ == (ResultV {
            dynamics: classes_up(old(result)@.dynamics, from as int),
            ..old(result)@
        }),
{
    proof {
        reveal(result_value);
    }
    let ghost all = result@.dynamics;
    let mut list: Vec<DynamicBinding> = Vec::new();
    let mut i: usize = 0;
    proof {
        assert(binding_values(list@) =~= all.take(0));
    }
    while i < from
        invariant
            i <= from <= result.dynamics.len(),
            result@ == old(result)@,
            all == old(result)@.dynamics,
            all == binding_values(result.dynamics@),
            binding_values(list@) == all.take(i as int),
        decreases from - i,
    {
        proof {
            reveal(result_value);
        }
        let copy = copied_binding(&result.dynamics[i]);
        let ghost seen = binding_values(list@);
        list.push(copy);
        proof {
            assert(all.take(i + 1) =~= seen.push(copy@));
            assert(binding_values(list@) =~= seen.push(copy@));
        }
        i = i + 1;
    }
    push_bindings(&mut list, &result.dynamics, from, true);
    push_bindings(&mut list, &result.dynamics, from, false);
    result.dynamics = list;
}

/// What the attributes ask of the rest of the element.
pub struct AttributeTransformResult {
    pub needs_text_content_placeholder: bool,
    /// Children that were given as an attribute, and whether they are marked
    /// as static.
    pub synthetic_children: Option<(Rc<Expr>, bool)>,
}

fn synthetic_children(
    attrs: &Vec<&JsxAttribute>,
    has_children: bool,
    context: &BlockContext,
    options: &TransformOptions,
) -> (given: Option<(Rc<Expr>, bool)>)
    ensures
        given == synthetic_v(
            attrs_of(attrs@),
            has_children,
            context@.source,
            options.static_marker@,
        ),
{
    proof {
        reveal(synthetic_v);
    }
    let chosen = attrs_in_group(attrs, AttrGroup::Children);
    let n: usize = chosen.len();
    if has_children || n == 0 {
        return None;
    }
    proof {
        in_group_is_from(attrs_of(attrs@), AttrGroup::Children, n - 1);
        assert(attrs_of(chosen@)[n - 1] == *chosen@[n - 1]);
    }
    match expr_of_children(chosen[n - 1]) {
        Some((span, expr)) => {
            let marked = context.has_static_marker_comment(span, options.static_marker);
            Some((expr, marked))
        },
        None => None,
    }
}

proof fn middle_keeps(
    attrs: Seq<JsxAttribute>,
    elem: Option<Seq<char>>,
    has_children: bool,
    state: AttrStateV,
    options: TransformOptions,
    vocabulary: Vocabulary,
)
    ensures
        same_element(
            middle_v(attrs, elem, has_children, state, options, vocabulary).result,
            state.result,
        ),
        same_setting(
            middle_v(attrs, elem, has_children, state, options, vocabulary).ctx,
            state.ctx,
        ),
{
    reveal(middle_v);
    let plain = in_group(attrs, AttrGroup::Plain);
    let listeners = in_group(attrs, AttrGroup::Listener).reverse();
    let styles = in_group(attrs, AttrGroup::Style);
    fold_keeps(plain, elem, has_children, state, options, vocabulary);
    let s1 = fold_v(plain, elem, has_children, state, options, vocabulary);
    fold_keeps(listeners, elem, has_children, s1, options, vocabulary);
    let s2 = fold_v(listeners, elem, has_children, s1, options, vocabulary);
    fold_keeps(styles, elem, has_children, s2, options, vocabulary);
}

proof fn ending_keeps(
    attrs: Seq<JsxAttribute>,
    elem: Option<Seq<char>>,
    has_children: bool,
    state: AttrStateV,
    from: nat,
    options: TransformOptions,
    vocabulary: Vocabulary,
)
    ensures
        ({
            let done = ending_v(attrs, elem, has_children, state, from, options, vocabulary);
            same_element(done.result, state.result) && same_setting(done.ctx, state.ctx)
        }),
{
    reveal(ending_v);
    let names = in_group(attrs, AttrGroup::ClassName);
    fold_keeps(names, elem, has_children, state, options, vocabulary);
}

proof fn ordered_keeps(
    attrs: Seq<JsxAttribute>,
    elem: Option<Seq<char>>,
    has_children: bool,
    state: AttrStateV,
    options: TransformOptions,
    vocabulary: Vocabulary,
)
    ensures
        ({
            let done = ordered_v(attrs, elem, has_children, state, options, vocabulary).0;
            same_element(done.result, state.result) && same_setting(done.ctx, state.ctx)
        }),
{
    reveal(ordered_v);
    let from = state.result.dynamics.len();
    let classes = in_group(attrs, AttrGroup::Class);
    if class_first(attrs) && !state.result.is_svg {
        classes_keep(classes, elem, has_children, state, options, vocabulary);
        if let Some(next) = classes_v(classes, elem, has_children, state, options, vocabulary) {
            middle_keeps(attrs, elem, has_children, next, options, vocabulary);
            let mid = middle_v(attrs, elem, has_children, next, options, vocabulary);
            ending_keeps(attrs, elem, has_children, mid, from, options, vocabulary);
        }
    } else {
        middle_keeps(attrs, elem, has_children, state, options, vocabulary);
        let mid = middle_v(attrs, elem, has_children, state, options, vocabulary);
        classes_keep(classes, elem, has_children, mid, options, vocabulary);
        if let Some(next) = classes_v(classes, elem, has_children, mid, options, vocabulary) {
            ending_keeps(attrs, elem, has_children, next, from, options, vocabulary);
        }
    }
}

proof fn start_keeps(
    attrs: Seq<JsxAttr>,
    elem: Option<Seq<char>>,
    has_children: bool,
    result: ResultV,
    ctx: ContextV,
    options: TransformOptions,
)
    ensures
        ({
            let start = start_v(attrs, elem, has_children, result, ctx, options).0;
            same_element(start.result, result) && same_setting(start.ctx, ctx)
        }),
{
    reveal(start_v);
}

/// Attributes leave the element and the setting as they were.  Children are
/// given as an attribute only where there are no others.
pub proof fn attributes_keep(
    attrs: Seq<JsxAttr>,
    has_children: bool,
    result: ResultV,
    ctx: ContextV,
    options: TransformOptions,
    vocabulary: Vocabulary,
)
    ensures
        ({
            let done = attributes_v(attrs, has_children, result, ctx, options, vocabulary);
            &&& same_element(done.0, result)
            &&& same_setting(done.1, ctx)
            &&& done.3 is Some && !has_spread(attrs) ==> !has_children && in_group(
                named(attrs),
                AttrGroup::Children,
            ).len() > 0
        }),
{
    reveal(attributes_v);
    reveal(left_v);
    reveal(synthetic_v);
    let elem = result.id;
    let start = start_v(attrs, elem, has_children, result, ctx, options).0;
    let list = left_v(attrs, ctx.source, options);
    start_keeps(attrs, elem, has_children, result, ctx, options);
    ordered_keeps(list, elem, has_children, start, options, vocabulary);
}

fn transform_middle(
    list: &Vec<&JsxAttribute>,
    elem_id: &Option<String>,
    result: &mut TransformResult,
    context: &mut BlockContext,
    options: &TransformOptions,
    vocabulary: &Vocabulary,
    has_children: bool,
    needs_placeholder: &mut bool,
    needs_spacing: &mut bool,
)
    requires
        id_suffices(
            attrs_of(list@),
            opt(*elem_id),
            old(result)@.is_svg,
            *options,
            *vocabulary,
        ),
    ensures
        (AttrStateV {
            result: final(result)@,
            ctx: final(context)@,
            placeholder: *final(needs_placeholder),
            spacing: *final(needs_spacing),
        }) == middle_v(
            attrs_of(list@),
            opt(*elem_id),
            has_children,
            AttrStateV {
                result: old(result)@,
                ctx: old(context)@,
                placeholder: *old(needs_placeholder),
                spacing: *old(needs_spacing),
            },
            *options,
            *vocabulary,
        ),
{
    proof {
        reveal(middle_v);
    }
    let ghost all = attrs_of(list@);
    let ghost elem = opt(*elem_id);
    let ghost svg = result@.is_svg;
    let ghost s0 = AttrStateV {
        result: result@,
        ctx: context@,
        placeholder: *needs_placeholder,
        spacing: *needs_spacing,
    };
    let plain = attrs_in_group(list, AttrGroup::Plain);
    proof {
        group_suffices(all, AttrGroup::Plain, elem, svg, *options, *vocabulary);
        fold_keeps(attrs_of(plain@), elem, has_children, s0, *options, *vocabulary);
    }
    transform_each(
        &plain,
        elem_id,
        result,
        context,
        options,
        vocabulary,
        has_children,
        needs_placeholder,
        needs_spacing,
    );
    let ghost s1 = AttrStateV {
        result: result@,
        ctx: context@,
        placeholder: *needs_placeholder,
        spacing: *needs_spacing,
    };
    let listeners = reversed(&attrs_in_group(list, AttrGroup::Listener));
    proof {
        group_suffices(all, AttrGroup::Listener, elem, svg, *options, *vocabulary);
        fold_keeps(attrs_of(listeners@), elem, has_children, s1, *options, *vocabulary);
    }
    transform_each(
        &listeners,
        elem_id,
        result,
        context,
        options,
        vocabulary,
        has_children,
        needs_placeholder,
        needs_spacing,
    );
    let styles = attrs_in_group(list, AttrGroup::Style);
    proof {
        group_suffices(all, AttrGroup::Style, elem, svg, *options, *vocabulary);
    }
    transform_each(
        &styles,
        elem_id,
        result,
        context,
        options,
        vocabulary,
        has_children,
        needs_placeholder,
        needs_spacing,
    );
}

fn transform_ending(
    list: &Vec<&JsxAttribute>,
    elem_id: &Option<String>,
    result: &mut TransformResult,
    context: &mut BlockContext,
    options: &TransformOptions,
    vocabulary: &Vocabulary,
    has_children: bool,
    needs_placeholder: &mut bool,
    needs_spacing: &mut bool,
    first: bool,
    from: usize,
)
    requires
        id_suffices(
            attrs_of(list@),
            opt(*elem_id),
            old(result)@.is_svg,
            *options,
            *vocabulary,
        ),
        first == class_first(attrs_of(list@)),
    ensures
        (AttrStateV {
            result: final(result)@,
            ctx: final(context)@,
            placeholder: *final(needs_placeholder),
            spacing: *final(needs_spacing),
        }) == ending_v(
            attrs_of(list@),
            opt(*elem_id),
            has_children,
            AttrStateV {
                result: old(result)@,
                ctx: old(context)@,
                placeholder: *old(needs_placeholder),
                spacing: *old(needs_spacing),
            },
            from as nat,
            *options,
            *vocabulary,
        ),
{
    proof {
        reveal(ending_v);
        group_suffices(
            attrs_of(list@),
            AttrGroup::ClassName,
            opt(*elem_id),
            result@.is_svg,
            *options,
            *vocabulary,
        );
    }
    let names = attrs_in_group(list, AttrGroup::ClassName);
    transform_each(
        &names,
        elem_id,
        result,
        context,
        options,
        vocabulary,
        has_children,
        needs_placeholder,
        needs_spacing,
    );
    if result.svg() && first && from < result.dynamics_len() {
        reorder_dynamics(result, from);
    }
}

/// Transforms the attributes that are left when spreads have taken theirs.
fn transform_ordered(
    list: &Vec<&JsxAttribute>,
    elem_id: &Option<String>,
    result: &mut TransformResult,
    context: &mut BlockContext,
    options: &TransformOptions,
    vocabulary: &Vocabulary,
    has_children: bool,
    needs_placeholder: &mut bool,
    needs_spacing: &mut bool,
) -> (done: Progress)
    requires
        id_suffices(
            attrs_of(list@),
            opt(*elem_id),
            old(result)@.is_svg,
            *options,
            *vocabulary,
        ),
        elem_id is Some || !has_dynamic_part(
            class_parts_v(in_group(attrs_of(list@), AttrGroup::Class)),
        ),
    ensures
        (
            AttrStateV {
                result: final(result)@,
                ctx: final(context)@,
                placeholder: *final(needs_placeholder),
                spacing: *final(needs_spacing),
            },
            done,
        ) == ordered_v(
            attrs_of(list@),
            opt(*elem_id),
            has_children,
            AttrStateV {
                result: old(result)@,
                ctx: old(context)@,
                placeholder: *old(needs_placeholder),
                spacing: *old(needs_spacing),
            },
            *options,
            *vocabulary,
        ),
{
    proof {
        reveal(ordered_v);
    }
    let ghost all = attrs_of(list@);
    let ghost elem = opt(*elem_id);
    let ghost s0 = AttrStateV {
        result: result@,
        ctx: context@,
        placeholder: *needs_placeholder,
        spacing: *needs_spacing,
    };
    let first = class_comes_first(list);
    let from: usize = result.dynamics_len();
    let classes = attrs_in_group(list, AttrGroup::Class);
    let early = first && !result.svg();
    proof {
        group_suffices(all, AttrGroup::Class, elem, s0.result.is_svg, *options, *vocabulary);
        classes_keep(attrs_of(classes@), elem, has_children, s0, *options, *vocabulary);
    }
    if early {
        if !transform_classes(
            &classes,
            elem_id,
            result,
            context,
            options,
            vocabulary,
            has_children,
            needs_placeholder,
            needs_spacing,
        ) {
            return Progress::AtFirstClasses;
        }
    }
    let ghost s1 = AttrStateV {
        result: result@,
        ctx: context@,
        placeholder: *needs_placeholder,
        spacing: *needs_spacing,
    };
    proof {
        middle_keeps(all, elem, has_children, s1, *options, *vocabulary);
    }
    transform_middle(
        list,
        elem_id,
        result,
        context,
        options,
        vocabulary,
        has_children,
        needs_placeholder,
        needs_spacing,
    );
    let ghost s2 = AttrStateV {
        result: result@,
        ctx: context@,
        placeholder: *needs_placeholder,
        spacing: *needs_spacing,
    };
    proof {
        classes_keep(attrs_of(classes@), elem, has_children, s2, *options, *vocabulary);
    }
    if !early {
        if !transform_classes(
            &classes,
            elem_id,
            result,
            context,
            options,
            vocabulary,
            has_children,
            needs_placeholder,
            needs_spacing,
        ) {
            return Progress::AtLastClasses;
        }
    }
    transform_ending(
        list,
        elem_id,
        result,
        context,
        options,
        vocabulary,
        has_children,
        needs_placeholder,
        needs_spacing,
        first,
        from,
    );
    Progress::Finished
}

/// Transforms all attributes of an element.
pub fn transform_attributes(
    attrs: &Vec<JsxAttr>,
    has_children: bool,
    result: &mut TransformResult,
    context: &mut BlockContext,
    options: &TransformOptions,
    vocabulary: &Vocabulary,
) -> (asked: AttributeTransformResult)
    requires
        old(result)@.id is Some || !attributes_need_id(
            attrs@,
            old(result)@.is_svg,
            *options,
            *vocabulary,
        ),
    ensures
        (
            final(result)@,
            final(context)@,
            asked.needs_text_content_placeholder,
            asked.synthetic_children,
        ) == attributes_v(
            attrs@,
            has_children,
            old(result)@,
            old(context)@,
            *options,
            *vocabulary,
        ),
{
    proof {
        reveal(attributes_v);
    }
    let elem_id = result.id_copy();
    let mut placeholder = false;
    let mut spacing = true;
    let ghost r0 = result@;
    let ghost c0 = context@;
    let (list, spread) = if any_spread(attrs) {
        let id = match &elem_id {
            Some(id) => id.as_str(),
            None => "",
        };
        let (list, spread) = process_spreads(attrs, id, has_children, context, options);
        result.note_hydratable_event(spread.is_some() && options.hydratable);
        (list, spread)
    } else {
        (named_attrs(attrs), None)
    };
    let ghost start = start_v(attrs@, r0.id, has_children, r0, c0, *options);
    proof {
        reveal(start_v);
        reveal(left_v);
        assert(start.0 == AttrStateV {
            result: result@,
            ctx: context@,
            placeholder: false,
            spacing: true,
        });
        assert(attrs_of(list@) == left_v(attrs@, c0.source, *options));
        assert(context@.source == c0.source);
        reveal(id_suffices);
        if r0.id is None {
            assert forall|i: int| 0 <= i < attrs_of(list@).len() implies !needs_id(
                #[trigger] attrs_of(list@)[i],
                r0.is_svg,
                *options,
                *vocabulary,
            ) by {
                assert(named(attrs@)[i] == attrs_of(list@)[i]);
            }
        }
    }
    let given = synthetic_children(&list, has_children, context, options);
    let done = transform_ordered(
        &list,
        &elem_id,
        result,
        context,
        options,
        vocabulary,
        has_children,
        &mut placeholder,
        &mut spacing,
    );
    if done == Progress::Finished {
        if let Some(expr) = spread {
            result.push_expr(expr);
        }
    }
    let synthetic = if done == Progress::AtFirstClasses {
        None
    } else {
        given
    };
    AttributeTransformResult {
        needs_text_content_placeholder: placeholder,
        synthetic_children: synthetic,
    }
}

} // verus!
