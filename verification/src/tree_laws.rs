//! How an element of the browser is begun, and what its children are told.

use crate::ast::{Expr, JsxAttr, JsxChild, JsxElement, Span};
use crate::attributes::insert_value_v;
use crate::element::{
    any_matched, base_v, child_info_v, components_v, forced_v, given_children_v, is_wrapped,
    no_hydration_v, placed_v, setting_v, spread_child_v,
};
use crate::handler_laws::{a_variable_is_itself, is_variable};
use crate::info::InfoV;
use crate::ir::{ContextV, HelperSource, ResultV};
use crate::options::TransformOptions;
use crate::place::{PlaceV, Setting, StateV};
use crate::scan::{answers, has_dynamic_insert, is_custom, is_single, needs_access, Asked};
use crate::shape::{arg, callee, is_call, is_name, is_thunk};
use crate::vocabulary::Vocabulary;
use std::rc::Rc;
use vstd::prelude::*;

verus! {

// ---------------------------------------------------------------------------
// Elements
// ---------------------------------------------------------------------------

/// Some attribute has this key.
pub open spec fn carries(attrs: Seq<JsxAttr>, key: Seq<char>) -> bool {
    exists|i: int|
        0 <= i < attrs.len() && (#[trigger] attrs[i] matches JsxAttr::Named(attr) && attr.key@
            == key)
}

/// An element begins with nothing but what its tag says: the namespace, whether
/// it is custom, whether it is cloned for its late loading, and whether it is a
/// part of the document that is hydrated without a template.
pub proof fn an_element_begins_as_its_tag_says(
    element: JsxElement,
    top_level: bool,
    options: TransformOptions,
    vocabulary: Vocabulary,
)
    ensures
        ({
            let begun = base_v(element, top_level, options, vocabulary);
            let tag = element.tag@;
            &&& begun.span == element.span
            &&& begun.tag_name == Some(tag)
            &&& begun.is_svg <==> vocabulary.is_svg(tag)
            &&& begun.template_is_svg <==> is_wrapped(tag, top_level, vocabulary)
            &&& begun.has_custom_element <==> is_custom(element)
            &&& begun.is_import_node <==> (tag == "img"@ || tag == "iframe"@) && carries(
                element.attrs@,
                "loading"@,
            )
            &&& begun.skip_template <==> options.hydratable && (tag == "html"@ || tag == "head"@
                || tag == "body"@)
            &&& begun.id is None
            &&& begun.template.len() == 0 && begun.closed.len() == 0
            &&& begun.declarations.len() == 0 && begun.statements.len() == 0
            &&& begun.exprs.len() == 0 && begun.dynamics.len() == 0 && begun.post_exprs.len() == 0
            &&& !begun.text && !begun.has_hydratable_event
        }),
{
    let attrs = element.attrs@;
    if carries(attrs, "loading"@) {
        let i = choose|i: int|
            0 <= i < attrs.len() && (#[trigger] attrs[i] matches JsxAttr::Named(attr) && attr.key@
                == "loading"@);
        assert(crate::scan::is_named(attrs[i], "loading"@));
    }
    if crate::scan::has_named(attrs, "loading"@) {
        let i = choose|i: int|
            0 <= i < attrs.len() && crate::scan::is_named(#[trigger] attrs[i], "loading"@);
        assert(attrs[i] matches JsxAttr::Named(attr) && attr.key@ == "loading"@);
    }
}

/// Children that are given by an attribute are inserted into the element: as they
/// are where a comment says that they stay, and else as any value is.
pub proof fn children_given_by_name_are_inserted(
    expr: Rc<Expr>,
    marked: bool,
    result: ResultV,
    ctx: ContextV,
    options: TransformOptions,
)
    requires
        result.id is Some,
        is_variable(result.id->0),
    ensures
        ({
            let done = given_children_v(Some((expr, marked)), result, ctx, options).0;
            let call = done.exprs.last();
            &&& done.exprs.len() == result.exprs.len() + 1
            &&& done.exprs.drop_last() == result.exprs
            &&& is_call(call, 2)
            &&& exists|ctx: ContextV|
                is_name(callee(call), (#[trigger] ctx.import("insert"@, HelperSource::Dom)).1)
            &&& is_name(arg(call, 0), result.id->0)
            &&& marked ==> arg(call, 1).kind == expr@.kind
            &&& !marked ==> arg(call, 1) == insert_value_v(*expr, options)
            &&& done.template == result.template && done.closed == result.closed
        }),
        given_children_v(None, result, ctx, options) == (result, ctx),
{
    reveal(given_children_v);
    a_variable_is_itself(result.id->0);
    let done = given_children_v(Some((expr, marked)), result, ctx, options).0;
    assert(done.exprs.drop_last() =~= result.exprs);
}

// ---------------------------------------------------------------------------
// Children
// ---------------------------------------------------------------------------

/// An element in another is told how it is reached and whether it is the last;
/// directly in a hydrated `html` it is matched by its tag, and the rest it has
/// from its parent.
pub proof fn a_child_is_told_where_it_stands(
    tag: Seq<char>,
    is_last: bool,
    parent_tag: Seq<char>,
    info: InfoV,
    place: PlaceV,
    hydratable: bool,
)
    ensures
        ({
            let told = child_info_v(tag, is_last, parent_tag, info, place, hydratable);
            &&& !told.top_level
            &&& told.last_element <==> is_last
            &&& told.forced_id is None
            &&& hydratable && parent_tag == "html"@ ==> told.match_tag == Some(tag)
            &&& !hydratable || parent_tag != "html"@ ==> told.match_tag == info.match_tag
            &&& told.skip_id == info.skip_id
            &&& told.component_child == info.component_child
            &&& told.fragment_child == info.fragment_child
            &&& told.to_be_closed == info.to_be_closed
            &&& place.here matches Some(id) ==> told.root_id == Some(id) && told.path.len() == 0
            &&& place.here is None && place.passed.len() == 0 ==> told.root_id == info.root_id
                && told.path == info.path.push("firstChild"@)
            &&& place.here is None && place.passed.len() > 0 && place.passed.last() is Some
                ==> told.root_id == place.passed.last() && told.path == seq!["nextSibling"@]
        }),
{
    let told = child_info_v(tag, is_last, parent_tag, info, place, hydratable);
    reveal_with_fuel(crate::place::nearest, 2);
    if place.here is None && place.passed.len() == 0 {
        assert(told.path =~= info.path.push("firstChild"@));
    }
    if place.here is None && place.passed.len() > 0 && place.passed.last() is Some {
        assert(told.path =~= seq!["nextSibling"@]);
    }
}

/// Two children mean something.
pub open spec fn two_mean(children: Seq<JsxChild>) -> bool {
    exists|i: int, j: int|
        i != j && 0 <= i < children.len() && 0 <= j < children.len() && answers(
            #[trigger] children[i],
            Asked::Meaning,
        ) && answers(#[trigger] children[j], Asked::Meaning)
}

/// A list of children is set up by how many of them mean something, whether a
/// component is among them, and whether a node of an element that is held may
/// have to be held too.
pub proof fn children_are_counted(
    children: Seq<JsxChild>,
    has_id: bool,
    options: TransformOptions,
    vocabulary: Vocabulary,
)
    ensures
        ({
            let setting = setting_v(children, has_id, options, vocabulary);
            &&& setting.single <==> is_single(children)
            &&& setting.multi <==> two_mean(children)
            &&& setting.has_component <==> exists|i: int|
                0 <= i < children.len() && answers(#[trigger] children[i], Asked::Component)
            &&& setting.track <==> has_id && has_dynamic_insert(children, options, vocabulary)
            &&& setting.hydratable <==> options.hydratable
        }),
{
    if two_mean(children) {
        let (i, j) = choose|i: int, j: int|
            i != j && 0 <= i < children.len() && 0 <= j < children.len() && answers(
                #[trigger] children[i],
                Asked::Meaning,
            ) && answers(#[trigger] children[j], Asked::Meaning);
        if i < j {
            assert(answers(children[i], Asked::Meaning) && answers(children[j], Asked::Meaning));
        } else {
            assert(answers(children[j], Asked::Meaning) && answers(children[i], Asked::Meaning));
        }
    }
}

/// A spread among the children is inserted where it stands, as a function where
/// it may change.
pub proof fn a_spread_child_is_inserted(
    span: Span,
    expr: Expr,
    children: Seq<JsxChild>,
    at: nat,
    setting: Setting,
    state: StateV,
    options: TransformOptions,
    vocabulary: Vocabulary,
)
    requires
        state.result.id is Some,
        is_variable(state.result.id->0),
    ensures
        ({
            let done = spread_child_v(
                span,
                expr,
                children,
                at,
                setting,
                state,
                options,
                vocabulary,
            );
            let call = done.result.exprs.last();
            &&& done.result.exprs.len() == state.result.exprs.len() + 1
            &&& done.result.exprs.drop_last() == state.result.exprs
            &&& is_name(arg(call, 0), state.result.id->0)
            &&& expr.facts.dynamic ==> is_thunk(arg(call, 1), expr@)
            &&& !expr.facts.dynamic ==> arg(call, 1) == expr@
        }),
{
    reveal(spread_child_v);
    let value = if expr.facts.dynamic {
        crate::make::thunk_v(crate::ast::no_span(), expr@)
    } else {
        expr@
    };
    crate::place_laws::a_value_is_inserted(
        state.with_last_was_text(false),
        span,
        value,
        state.result.id->0,
        children,
        at,
        setting,
        options,
        vocabulary,
    );
}

/// An element in an element stands in the template behind what is there, is run
/// behind what is run, and is passed by; a walk may start at it where it is held
/// by a variable.  The head of a hydrated document is not run.
pub proof fn an_element_child_is_passed(
    element: JsxElement,
    reached: bool,
    child: ResultV,
    setting: Setting,
    state: StateV,
)
    requires
        state.place.here is None,
    ensures
        ({
            let done = placed_v(element, reached, child, setting, state);
            let head = setting.hydratable && element.tag@ == "head"@;
            &&& done.result.template == state.result.template + child.template
            &&& head ==> done.result.exprs == state.result.exprs.push(no_hydration_v(element.span))
                && done.place == state.place
            &&& !head ==> done.place.passed.drop_last() == state.place.passed
                && done.place.passed.len() == state.place.passed.len() + 1 && done.place.here
                is None
            &&& !head && reached && child.id is Some ==> done.place.passed.last() == child.id
            &&& !head && !reached ==> done.place.passed.last() is None
            &&& !head && child.id is None && !setting.track ==> done.place.passed.last() is None
            &&& !head && child.id is None && setting.track && reached && state.result.id is Some
                ==> done.place.passed.last() is Some
            &&& !head && child.statements.len() == 0 ==> done.result.exprs == state.result.exprs
                + child.exprs
            &&& !head ==> done.result.dynamics == state.result.dynamics + child.dynamics
                && done.result.post_exprs == state.result.post_exprs + child.post_exprs
        }),
{
    reveal(placed_v);
    let done = placed_v(element, reached, child, setting, state);
    if !(setting.hydratable && element.tag@ == "head"@) {
        assert(done.place.passed.drop_last() =~= state.place.passed);
    }
}

/// An element that is reached and has to be held takes the first of the names
/// that were set aside.
pub proof fn a_name_set_aside_is_used(
    element: JsxElement,
    info: InfoV,
    setting: Setting,
    state: StateV,
    options: TransformOptions,
    vocabulary: Vocabulary,
)
    ensures
        ({
            let (ready, told) = forced_v(element, info, setting, state, options, vocabulary);
            let taken = setting.track && state.place.pool.len() > 0 && !info.skip_id
                && info.root_id is Some && info.path.len() > 0 && needs_access(
                element,
                options,
                vocabulary,
            );
            &&& taken ==> told.forced_id == Some(state.place.pool.first()) && seq![
                state.place.pool.first(),
            ] + ready.place.pool == state.place.pool
            &&& !taken ==> (ready, told) == (state, info)
            &&& told.path == info.path && told.root_id == info.root_id && told.match_tag
                == info.match_tag && told.last_element == info.last_element
            &&& ready.ctx == state.ctx && ready.result == state.result && ready.place.passed
                == state.place.passed
        }),
{
    reveal(forced_v);
    let (ready, told) = forced_v(element, info, setting, state, options, vocabulary);
    if told.forced_id is Some && ready.place.pool != state.place.pool {
        assert(seq![state.place.pool.first()] + ready.place.pool =~= state.place.pool);
    }
    if state.place.pool.len() > 0 {
        assert(seq![state.place.pool.first()] + state.place.pool.skip(1) =~= state.place.pool);
    }
}

/// In a hydrated `html` the elements other than the head are matched, and the
/// components are not.
pub proof fn elements_of_the_document_are_matched(children: Seq<JsxChild>)
    ensures
        any_matched(children) <==> exists|i: int|
            0 <= i < children.len() && (#[trigger] children[i] matches JsxChild::Element(element)
                && !element.is_component && element.tag@ != "head"@),
{
    if any_matched(children) {
        let i = choose|i: int|
            0 <= i < children.len() && crate::element::is_matched(#[trigger] children[i]);
        assert(children[i] matches JsxChild::Element(element) && !element.is_component
            && element.tag@ != "head"@);
    }
    if exists|i: int|
        0 <= i < children.len() && (#[trigger] children[i] matches JsxChild::Element(element)
            && !element.is_component && element.tag@ != "head"@) {
        let i = choose|i: int|
            0 <= i < children.len() && (#[trigger] children[i] matches JsxChild::Element(element)
                && !element.is_component && element.tag@ != "head"@);
        assert(crate::element::is_matched(children[i]));
    }
}

/// The components of a list are reached in their order, each once, and nothing
/// else is.
pub proof fn components_are_reached_in_order(
    before: Seq<JsxChild>,
    child: JsxChild,
    ctx: ContextV,
)
    ensures
        ({
            let all = before.push(child);
            let first = components_v(before, before.len(), ctx);
            let done = components_v(all, all.len(), ctx);
            &&& child matches JsxChild::Element(element) ==> (element.is_component ==> done
                == first.reaching(*element)) && (!element.is_component ==> done == first)
            &&& !(child is Element) ==> done == first
        }),
        components_v(seq![], 0, ctx) == ctx,
{
    let all = before.push(child);
    components_of_the_first(before, child, before.len(), ctx);
}

proof fn components_of_the_first(
    before: Seq<JsxChild>,
    child: JsxChild,
    n: nat,
    ctx: ContextV,
)
    requires
        n <= before.len(),
    ensures
        components_v(before.push(child), n, ctx) == components_v(before, n, ctx),
    decreases n,
{
    if n > 0 {
        components_of_the_first(before, child, (n - 1) as nat, ctx);
        assert(before.push(child)[n - 1] == before[n - 1]);
    }
}

} // verus!
