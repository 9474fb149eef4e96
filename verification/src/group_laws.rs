//! The order in which the attributes of an element take effect, the styles of an
//! element, and the names that are set aside for its nodes.

use crate::all_attributes::{
    class_first, classes_v, ending_v, fold_v, group_of, in_group, middle_v, ordered_v, AttrGroup,
    Progress,
};
use crate::ast::{ExprV, JsxAttribute, JsxChild, JsxValue, KindV, Prop};
use crate::attribute::{attribute_v, AttrStateV};
use crate::attributes::{inline_v, wraps_effects};
use crate::ir::{ContextV, ResultV};
use crate::marker::static_marker;
use crate::options::TransformOptions;
use crate::output::{is_math_ml, is_math_ml_tag, is_tag_char, tag_length};
use crate::place::{slot_v, slots_v, text_walk_v, SlotsV, StateV};
use crate::scan::{is_dynamic_insert, is_live, needs_access, text_of};
use crate::shape::is_literal;
use crate::spread::{merged_class_v, MergedClassV};
use crate::statics::confident;
use crate::style::{inline_styles_v, kept_v, singles_v, style_v, whole_style_v};
use crate::text::{is_white, join_v, trim_start};
use crate::vocabulary::Vocabulary;
use vstd::prelude::*;

verus! {

// ---------------------------------------------------------------------------
// Order
// ---------------------------------------------------------------------------

/// Attributes take effect one behind the other.
pub proof fn attributes_take_effect_in_order(
    a: Seq<JsxAttribute>,
    b: Seq<JsxAttribute>,
    elem: Option<Seq<char>>,
    has_children: bool,
    state: AttrStateV,
    options: TransformOptions,
    vocabulary: Vocabulary,
)
    ensures
        fold_v(a + b, elem, has_children, state, options, vocabulary) == fold_v(
            b,
            elem,
            has_children,
            fold_v(a, elem, has_children, state, options, vocabulary),
            options,
            vocabulary,
        ),
        a.len() == 1 ==> fold_v(a, elem, has_children, state, options, vocabulary) == attribute_v(
            a[0],
            elem,
            has_children,
            state,
            options,
            vocabulary,
        ),
    decreases b.len(),
{
    reveal_with_fuel(fold_v, 2);
    if b.len() == 0 {
        assert(a + b =~= a);
    } else {
        attributes_take_effect_in_order(
            a,
            b.drop_last(),
            elem,
            has_children,
            state,
            options,
            vocabulary,
        );
        assert((a + b).drop_last() =~= a + b.drop_last());
        assert((a + b).last() == b.last());
    }
    if a.len() == 1 {
        assert(a.drop_last() =~= Seq::<JsxAttribute>::empty());
    }
}

/// A class stands before all that is no class, and something else follows.
pub open spec fn leads(attrs: Seq<JsxAttribute>, k: int) -> bool {
    &&& 0 <= k < attrs.len()
    &&& group_of(attrs[k]) == AttrGroup::Class
    &&& forall|i: int| 0 <= i < k ==> group_of(#[trigger] attrs[i]) == AttrGroup::ClassName
    &&& exists|i: int|
        k < i < attrs.len() && group_of(#[trigger] attrs[i]) != AttrGroup::Class && group_of(
            attrs[i],
        ) != AttrGroup::ClassName
}

/// Classes come first where one leads.
pub proof fn a_class_leads(attrs: Seq<JsxAttribute>)
    ensures
        class_first(attrs) <==> exists|k: int| leads(attrs, k),
    decreases attrs.len(),
{
    reveal_with_fuel(class_first, 2);
    if attrs.len() > 0 {
        let rest = attrs.skip(1);
        if group_of(attrs[0]) == AttrGroup::Class {
            if class_first(attrs) {
                let i = choose|i: int|
                    0 <= i < attrs.len() && crate::all_attributes::is_other(#[trigger] attrs[i]);
                assert(group_of(attrs[i]) != AttrGroup::Class);
                assert(leads(attrs, 0));
            }
            if exists|k: int| leads(attrs, k) {
                let k = choose|k: int| leads(attrs, k);
                let i = choose|i: int|
                    k < i < attrs.len() && group_of(#[trigger] attrs[i]) != AttrGroup::Class
                        && group_of(attrs[i]) != AttrGroup::ClassName;
                assert(crate::all_attributes::is_other(attrs[i]));
            }
        } else if group_of(attrs[0]) == AttrGroup::ClassName {
            a_class_leads(rest);
            if exists|k: int| leads(rest, k) {
                let k = choose|k: int| leads(rest, k);
                let i = choose|i: int|
                    k < i < rest.len() && group_of(#[trigger] rest[i]) != AttrGroup::Class
                        && group_of(rest[i]) != AttrGroup::ClassName;
                assert(attrs[i + 1] == rest[i]);
                assert forall|j: int| 0 <= j < k + 1 implies group_of(#[trigger] attrs[j])
                    == AttrGroup::ClassName by {
                    if j > 0 {
                        assert(attrs[j] == rest[j - 1]);
                    }
                }
                assert(attrs[k + 1] == rest[k]);
                assert(leads(attrs, k + 1));
            }
            if exists|k: int| leads(attrs, k) {
                let k = choose|k: int| leads(attrs, k);
                let i = choose|i: int|
                    k < i < attrs.len() && group_of(#[trigger] attrs[i]) != AttrGroup::Class
                        && group_of(attrs[i]) != AttrGroup::ClassName;
                assert(rest[i - 1] == attrs[i]);
                assert(rest[k - 1] == attrs[k]);
                assert forall|j: int| 0 <= j < k - 1 implies group_of(#[trigger] rest[j])
                    == AttrGroup::ClassName by {
                    assert(rest[j] == attrs[j + 1]);
                }
                assert(leads(rest, k - 1));
            }
        } else {
            if exists|k: int| leads(attrs, k) {
                let k = choose|k: int| leads(attrs, k);
                assert(group_of(attrs[0]) == AttrGroup::ClassName || k == 0);
            }
        }
    }
}

/// The attributes that are no class: the plain ones, the listeners from the last
/// to the first, and the styles.
pub open spec fn between(attrs: Seq<JsxAttribute>) -> Seq<JsxAttribute> {
    in_group(attrs, AttrGroup::Plain) + in_group(attrs, AttrGroup::Listener).reverse() + in_group(
        attrs,
        AttrGroup::Style,
    )
}

/// Where there is at most one class, all attributes take effect, each group
/// behind the other: the class first where it leads, and else behind the rest;
/// `className` last of all.
pub proof fn groups_take_effect_in_turn(
    attrs: Seq<JsxAttribute>,
    elem: Option<Seq<char>>,
    has_children: bool,
    state: AttrStateV,
    options: TransformOptions,
    vocabulary: Vocabulary,
)
    requires
        in_group(attrs, AttrGroup::Class).len() <= 1,
    ensures
        ({
            let class = in_group(attrs, AttrGroup::Class);
            let names = in_group(attrs, AttrGroup::ClassName);
            let order = if class_first(attrs) && !state.result.is_svg {
                class + between(attrs) + names
            } else {
                between(attrs) + class + names
            };
            let all = fold_v(order, elem, has_children, state, options, vocabulary);
            let done = ordered_v(attrs, elem, has_children, state, options, vocabulary);
            &&& done.1 == Progress::Finished
            &&& !all.result.is_svg || !class_first(attrs) ==> done.0 == all
        }),
{
    reveal(ordered_v);
    reveal(classes_v);
    reveal(middle_v);
    reveal(ending_v);
    let class = in_group(attrs, AttrGroup::Class);
    let names = in_group(attrs, AttrGroup::ClassName);
    let plain = in_group(attrs, AttrGroup::Plain);
    let listeners = in_group(attrs, AttrGroup::Listener).reverse();
    let styles = in_group(attrs, AttrGroup::Style);
    let first = class_first(attrs) && !state.result.is_svg;
    let none = Seq::<JsxAttribute>::empty();
    reveal_with_fuel(fold_v, 2);
    let s = if first {
        fold_v(class, elem, has_children, state, options, vocabulary)
    } else {
        state
    };
    attributes_take_effect_in_order(class, none, elem, has_children, state, options, vocabulary);
    attributes_take_effect_in_order(plain, listeners, elem, has_children, s, options, vocabulary);
    attributes_take_effect_in_order(
        plain + listeners,
        styles,
        elem,
        has_children,
        s,
        options,
        vocabulary,
    );
    let mid = fold_v(between(attrs), elem, has_children, s, options, vocabulary);
    assert(mid == middle_v(attrs, elem, has_children, s, options, vocabulary));
    if first {
        attributes_take_effect_in_order(
            class,
            between(attrs),
            elem,
            has_children,
            state,
            options,
            vocabulary,
        );
        attributes_take_effect_in_order(
            class + between(attrs),
            names,
            elem,
            has_children,
            state,
            options,
            vocabulary,
        );
    } else {
        attributes_take_effect_in_order(class, none, elem, has_children, mid, options, vocabulary);
        attributes_take_effect_in_order(
            between(attrs),
            class,
            elem,
            has_children,
            state,
            options,
            vocabulary,
        );
        attributes_take_effect_in_order(
            between(attrs) + class,
            names,
            elem,
            has_children,
            state,
            options,
            vocabulary,
        );
    }
}

/// Several classes become one attribute: in the template where all of them are
/// known, and else bound to the element.
pub proof fn several_classes_become_one(
    attrs: Seq<JsxAttribute>,
    elem: Seq<char>,
    has_children: bool,
    state: AttrStateV,
    options: TransformOptions,
    vocabulary: Vocabulary,
)
    requires
        attrs.len() > 1,
    ensures
        ({
            let done = classes_v(attrs, Some(elem), has_children, state, options, vocabulary);
            match merged_class_v(attrs) {
                None => done is None,
                Some(MergedClassV::Static(text)) => done matches Some(next) && next.ctx == state.ctx
                    && (text.len() == 0 ==> next == state) && (text.len() > 0 ==> (
                next.result,
                next.spacing,
                ) == inline_v(
                    state.result,
                    "class"@,
                    Some(text),
                    options.omit_quotes,
                    state.spacing,
                )),
                Some(MergedClassV::Dynamic(expr)) => done matches Some(next) && next.ctx
                    == state.ctx && next.result.dynamics.len() == state.result.dynamics.len() + 1
                    && next.result.dynamics.drop_last() == state.result.dynamics
                    && next.result.dynamics.last().key == "class"@
                    && next.result.dynamics.last().value == expr
                    && next.result.dynamics.last().elem == elem && next.result.template
                    == state.result.template,
            }
        }),
{
    reveal(classes_v);
    if let Some(MergedClassV::Dynamic(expr)) = merged_class_v(attrs) {
        let next = classes_v(attrs, Some(elem), has_children, state, options, vocabulary)->0;
        assert(next.result.dynamics.drop_last() =~= state.result.dynamics);
    }
}

// ---------------------------------------------------------------------------
// Styles
// ---------------------------------------------------------------------------

/// A style of this kind is set as a whole.
pub open spec fn sets_style(
    done: (ResultV, ContextV),
    elem: Seq<char>,
    kind: KindV,
    changes: bool,
    result: ResultV,
    ctx: ContextV,
) -> bool {
    exists|value: ExprV|
        value.kind == kind && done == #[trigger] whole_style_v(elem, value, changes, result, ctx)
}

/// A style that is given as text goes into the template, and a computed one is
/// set as a whole; without inline styles both are set when the element is there.
pub proof fn a_style_goes_where_it_may(
    attr: JsxAttribute,
    elem: Seq<char>,
    result: ResultV,
    ctx: ContextV,
    options: TransformOptions,
    spacing: bool,
)
    ensures
        ({
            let done = style_v(attr, Some(elem), result, ctx, options, spacing);
            match attr.value {
                JsxValue::Str { value, .. } => {
                    &&& done.1 == ctx || !options.inline_styles
                    &&& options.inline_styles ==> (done.0, done.2) == inline_v(
                        result,
                        "style"@,
                        Some(value@),
                        options.omit_quotes,
                        spacing,
                    )
                    &&& !options.inline_styles && wraps_effects(options) ==> {
                        let last = done.0.dynamics.last();
                        &&& done.0.dynamics.drop_last() == result.dynamics
                        &&& last.key == "style"@ && last.elem == elem
                        &&& is_literal(last.value, value@)
                    }
                },
                JsxValue::Container { span, expr: Some(expr), .. } => {
                    let marked = static_marker(ctx.source, span, options.static_marker@);
                    &&& options.inline_styles && !(expr.kind is Object) ==> sets_style(
                        (done.0, done.1),
                        elem,
                        expr@.kind,
                        !marked && (expr.facts.dynamic || !confident(*expr)),
                        result,
                        ctx,
                    )
                    &&& !options.inline_styles && wraps_effects(options) ==> {
                        let last = done.0.dynamics.last();
                        &&& done.0.dynamics.drop_last() == result.dynamics
                        &&& last.key == "style"@ && last.elem == elem
                        &&& last.value.kind == expr@.kind
                    }
                },
                _ => done.0 == result && done.1 == ctx && done.2 == spacing,
            }
        }),
{
    reveal(style_v);
    let done = style_v(attr, Some(elem), result, ctx, options, spacing);
    assert(done.0.dynamics.len() > 0 ==> done.0.dynamics.drop_last().len() + 1
        == done.0.dynamics.len());
    match attr.value {
        JsxValue::Str { value, .. } => {
            if !options.inline_styles && wraps_effects(options) {
                assert(done.0.dynamics.drop_last() =~= result.dynamics);
            }
        },
        JsxValue::Container { span, expr: Some(expr), .. } => {
            let marked = static_marker(ctx.source, span, options.static_marker@);
            if !options.inline_styles && wraps_effects(options) {
                assert(done.0.dynamics.drop_last() =~= result.dynamics);
            }
            assert(options.inline_styles && !(expr.kind is Object) ==> (done.0, done.1)
                == whole_style_v(
                elem,
                crate::attributes::cloned_v(*expr, marked),
                !marked && (expr.facts.dynamic || !confident(*expr)),
                result,
                ctx,
            ));
        },
        _ => {},
    }
}

/// An object of styles is set as a whole; it changes unless a comment says that
/// it stays, where something behind it changes.
pub open spec fn sets_the_rest(
    done: (ResultV, ContextV),
    elem: Seq<char>,
    props: Seq<Prop>,
    marked: bool,
    remainder_dynamic: bool,
    result: ResultV,
    ctx: ContextV,
) -> bool {
    exists|changes: bool|
        #[trigger] sets_style(
            done,
            elem,
            KindV::Object(crate::ast::prop_values(props)),
            changes,
            result,
            ctx,
        ) && (changes ==> !marked) && (!marked && remainder_dynamic ==> changes)
}

/// Of an object of styles the ones that are known go into the template, in their
/// order, and the others are set: each alone where all have a plain key, and else
/// together.
pub proof fn known_styles_go_into_the_template(
    attr: JsxAttribute,
    props: Seq<Prop>,
    marked: bool,
    remainder_dynamic: bool,
    elem: Seq<char>,
    result: ResultV,
    ctx: ContextV,
    options: TransformOptions,
    spacing: bool,
)
    ensures
        ({
            let done = crate::style::style_object_v(
                attr,
                props,
                marked,
                remainder_dynamic,
                elem,
                result,
                ctx,
                options,
                spacing,
            );
            let known = inline_styles_v(props);
            let kept = kept_v(props);
            let written = if known.len() > 0 {
                inline_v(
                    result,
                    "style"@,
                    Some(join_v(known, ";"@)),
                    options.omit_quotes,
                    spacing,
                )
            } else {
                (result, spacing)
            };
            let plain = forall|i: int|
                0 <= i < kept.len() ==> ((#[trigger] kept[i]) is Named && !kept[i]->computed);
            &&& done.2 == written.1
            &&& kept.len() == 0 ==> done.0 == written.0 && done.1 == ctx
            &&& kept.len() > 0 && plain ==> done.0 == singles_v(
                kept,
                marked,
                elem,
                written.0,
                ctx.source,
                options.static_marker@,
            )
            &&& kept.len() > 0 && !plain ==> sets_the_rest(
                (done.0, done.1),
                elem,
                kept,
                marked,
                remainder_dynamic,
                written.0,
                ctx,
            )
        }),
{
    let kept = kept_v(props);
    let plain = forall|i: int|
        0 <= i < kept.len() ==> ((#[trigger] kept[i]) is Named && !kept[i]->computed);
    if plain {
        assert(crate::style::can_split(kept));
    }
    if crate::style::can_split(kept) {
        assert forall|i: int| 0 <= i < kept.len() implies ((#[trigger] kept[i]) is Named
            && !kept[i]->computed) by {}
    }
    if kept.len() > 0 && !plain {
        let known = inline_styles_v(props);
        let written = if known.len() > 0 {
            inline_v(result, "style"@, Some(join_v(known, ";"@)), options.omit_quotes, spacing).0
        } else {
            result
        };
        let value = crate::make::object_v(attr.span, crate::ast::prop_values(kept));
        let changes = !marked && (remainder_dynamic || !crate::statics::confident_props(kept));
        let done = whole_style_v(elem, value, changes, written, ctx);
        let out = crate::style::style_object_v(
            attr,
            props,
            marked,
            remainder_dynamic,
            elem,
            result,
            ctx,
            options,
            spacing,
        );
        assert(!crate::style::can_split(kept));
        assert((out.0, out.1) == done);
        assert(sets_style(
            (out.0, out.1),
            elem,
            KindV::Object(crate::ast::prop_values(kept)),
            changes,
            written,
            ctx,
        ));
    }
}

// ---------------------------------------------------------------------------
// Nodes
// ---------------------------------------------------------------------------

/// A child takes a name where it stands for a node: a text, unless it goes on a
/// text, and an element that is no component, unless it takes a name by itself.
pub proof fn a_node_has_a_name_set_aside(
    child: JsxChild,
    split: bool,
    runtime: bool,
    slots: SlotsV,
    options: TransformOptions,
    vocabulary: Vocabulary,
)
    requires
        !(child is Fragment),
    ensures
        ({
            let done = slot_v(child, split, runtime, slots, options, vocabulary);
            let is_text = match child {
                JsxChild::Text(text) => text.content@.len() > 0,
                JsxChild::Container { expr: Some(expr), .. } => text_of(*expr) matches Some(text)
                    && text.len() > 0,
                _ => false,
            };
            let takes = (is_text && (split || !slots.last_was_text)) || (child matches
                JsxChild::Element(element) && !element.is_component && (runtime || !needs_access(
                *element,
                options,
                vocabulary,
            )));
            &&& takes ==> done.pool == slots.pool.push(slots.ctx.uid("el$"@).1)
            &&& !takes ==> done.pool == slots.pool && done.ctx == slots.ctx
            &&& is_text ==> done.last_was_text
            &&& !is_text && !(child is Text) ==> !done.last_was_text
        }),
{
    reveal_with_fuel(slot_v, 2);
}

/// Names are set aside for the children in their order.
pub proof fn names_are_set_aside_in_order(
    children: Seq<JsxChild>,
    from: nat,
    mid: nat,
    to: nat,
    split: bool,
    runtime: bool,
    slots: SlotsV,
    options: TransformOptions,
    vocabulary: Vocabulary,
)
    requires
        from <= mid <= to <= children.len(),
    ensures
        slots_v(children, from, to, split, runtime, slots, options, vocabulary) == slots_v(
            children,
            mid,
            to,
            split,
            runtime,
            slots_v(children, from, mid, split, runtime, slots, options, vocabulary),
            options,
            vocabulary,
        ),
        mid == from + 1 ==> slots_v(
            children,
            from,
            mid,
            split,
            runtime,
            slots,
            options,
            vocabulary,
        ) == slot_v(children[from as int], split, runtime, slots, options, vocabulary),
    decreases to,
{
    reveal_with_fuel(slots_v, 3);
    if mid < to {
        names_are_set_aside_in_order(
            children,
            from,
            mid,
            (to - 1) as nat,
            split,
            runtime,
            slots,
            options,
            vocabulary,
        );
    }
}

/// A text that goes on a text is the same node; any other is passed by where the
/// nodes are walked.
pub proof fn a_text_is_passed_once(state: StateV, walked: bool, has_component: bool)
    ensures
        ({
            let done = text_walk_v(state, walked, has_component);
            &&& done.place.last_was_text
            &&& state.place.last_was_text || !walked ==> done.place.passed == state.place.passed
            &&& !state.place.last_was_text && walked ==> done.place.passed.len()
                == state.place.passed.len() + 1 && done.place.passed.drop_last()
                == state.place.passed
            &&& !state.place.last_was_text && walked && state.place.here is Some
                ==> done.place.passed.last() == state.place.here
            &&& !state.place.last_was_text && walked && state.result.id is Some
                ==> done.place.passed.last() is Some
            &&& done.result.template == state.result.template && done.result.exprs
                == state.result.exprs
        }),
{
    reveal(text_walk_v);
    let done = text_walk_v(state, walked, has_component);
    if !state.place.last_was_text && walked {
        assert(done.place.passed.drop_last() =~= state.place.passed);
    }
}

/// A child is live where something is done for it or in it when it is there.
pub proof fn what_is_live(child: JsxChild, options: TransformOptions, vocabulary: Vocabulary)
    ensures
        child is Text || child is Spread ==> !is_live(child, options, vocabulary),
        child matches JsxChild::Container { expr, .. } ==> (is_live(child, options, vocabulary)
            <==> (expr matches Some(expr) && text_of(*expr) is None)),
        child matches JsxChild::Element(element) ==> (is_live(child, options, vocabulary)
            <==> element.is_component || needs_access(*element, options, vocabulary) || exists|
            i: int,
        |
            0 <= i < element.children@.len() && is_live(
                #[trigger] element.children@[i],
                options,
                vocabulary,
            )),
        child is Spread ==> is_dynamic_insert(child, options, vocabulary),
        child is Text ==> !is_dynamic_insert(child, options, vocabulary),
        child is Container || child is Element ==> (is_dynamic_insert(child, options, vocabulary)
            <==> is_live(child, options, vocabulary)),
{
    reveal_with_fuel(is_live, 2);
    reveal_with_fuel(is_dynamic_insert, 2);
}

// ---------------------------------------------------------------------------
// MathML
// ---------------------------------------------------------------------------

proof fn a_tag_has_its_length(tag: Seq<char>, behind: Seq<char>)
    requires
        forall|i: int| 0 <= i < tag.len() ==> is_tag_char(#[trigger] tag[i]),
        behind.len() > 0,
        !is_tag_char(behind[0]),
    ensures
        tag_length(tag + behind) == tag.len(),
    decreases tag.len(),
{
    if tag.len() == 0 {
        assert(tag + behind =~= behind);
    } else {
        assert forall|i: int| 0 <= i < tag.skip(1).len() implies is_tag_char(
            #[trigger] tag.skip(1)[i],
        ) by {
            assert(tag.skip(1)[i] == tag[i + 1]);
        }
        a_tag_has_its_length(tag.skip(1), behind);
        assert((tag + behind).skip(1) =~= tag.skip(1) + behind);
        assert((tag + behind)[0] == tag[0]);
    }
}

/// A template is of MathML by its first tag, whatever follows.
pub proof fn a_template_is_of_its_first_tag(tag: Seq<char>, end: char, behind: Seq<char>)
    requires
        tag.len() > 0,
        forall|i: int| 0 <= i < tag.len() ==> is_tag_char(#[trigger] tag[i]),
        end == '>' || end == ' ',
    ensures
        is_math_ml(seq!['<'] + tag + seq![end] + behind) <==> is_math_ml_tag(tag),
        is_math_ml(seq![' '] + (seq!['<'] + tag + seq![end] + behind)) <==> is_math_ml_tag(tag),
{
    let text = seq!['<'] + tag + seq![end] + behind;
    let rest = text.skip(1);
    assert(rest =~= tag + (seq![end] + behind));
    a_tag_has_its_length(tag, seq![end] + behind);
    assert(rest.take(tag.len() as int) =~= tag);
    reveal_with_fuel(trim_start, 3);
    assert(text[0] == '<');
    assert(!is_white('<'));
    assert(is_white(' '));
    let spaced = seq![' '] + text;
    assert(spaced.skip(1) =~= text);
    assert(trim_start(text) == text);
    assert(trim_start(spaced) == text);
    assert(rest[tag.len() as int] == end);
}

} // verus!
