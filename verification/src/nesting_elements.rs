//! The JSX in what elements are transformed into.

use crate::all_attributes::attributes_v;
use crate::ast::{expr_value, Expr, ExprV, JsxChild, JsxElement, JsxFragment, KindV, Span};
use crate::attributes::{el_v, insert_value_v, mem_v};
use crate::element::{
    any_matched, at_start, base_v, child_info_v, child_v, component_child_v, components_v,
    element_v, expr_child_v, finished_v, forced_v, given_children_v, has_id, identified_v,
    is_reached, is_wrapped, items_v, list_v, no_hydration_v, opened_v, owned_v, placed_v,
    setting_v, spread_child_v, text_child_v, walk_v,
};
use crate::info::InfoV;
use crate::ir::{ContextV, ResultV};
use crate::nesting_attributes::{all_attrs_in, attributes_hold};
use crate::nesting_make::{body_ok, expr_in, group_made, ok};
use crate::options::TransformOptions;
use crate::place::{
    insertion_v, kept_for_v, markers_v, nearest, placeholder_v, siblings_v, text_walk_v, PlaceV,
    Setting, StateV,
};
use crate::scan::{last_asked, last_of};
use crate::vocabulary::Vocabulary;
use vstd::prelude::*;

verus! {

broadcast use group_made;

// ---------------------------------------------------------------------------
// What holds of all JSX in a tree
// ---------------------------------------------------------------------------

/// `p` holds of all JSX that an element holds in expressions; of a component,
/// in the expressions that it was lowered to.
pub open spec fn element_in(element: JsxElement, p: spec_fn(KindV) -> bool) -> bool
    decreases element, 0nat,
{
    if element.is_component {
        element.component matches Some(output) ==> forall|i: int|
            0 <= i < output.exprs@.len() ==> ok(expr_value(*#[trigger] output.exprs@[i]), p)
    } else {
        all_attrs_in(element.attrs@, p) && children_in(element.children@, p)
    }
}

/// The same of a fragment.
pub open spec fn fragment_in(fragment: JsxFragment, p: spec_fn(KindV) -> bool) -> bool
    decreases fragment, 0nat,
{
    children_in(fragment.children@, p)
}

/// The same of a child.
pub open spec fn child_in(child: JsxChild, p: spec_fn(KindV) -> bool) -> bool
    decreases child, 0nat,
{
    match child {
        JsxChild::Text(_) => true,
        JsxChild::Container { expr, .. } => match expr {
            Some(expr) => expr_in(*expr, p),
            None => true,
        },
        JsxChild::Spread { expr, .. } => expr_in(*expr, p),
        JsxChild::Element(element) => element_in(*element, p),
        JsxChild::Fragment(fragment) => fragment_in(*fragment, p),
    }
}

/// The same of all children.
pub open spec fn children_in(children: Seq<JsxChild>, p: spec_fn(KindV) -> bool) -> bool
    decreases children, 0nat,
{
    forall|i: int| 0 <= i < children.len() ==> child_in(#[trigger] children[i], p)
}

// ---------------------------------------------------------------------------
// Places
// ---------------------------------------------------------------------------

proof fn siblings_hold(expr: ExprV, n: nat, p: spec_fn(KindV) -> bool)
    requires
        ok(expr, p),
    ensures
        ok(siblings_v(expr, n), p),
    decreases n,
{
    if n > 0 {
        siblings_hold(expr, (n - 1) as nat, p);
    }
}

broadcast proof fn accessor_holds(place: PlaceV, parent: Seq<char>, p: spec_fn(KindV) -> bool)
    ensures
        #[trigger] ok(place.accessor(parent), p),
{
    match nearest(place.passed) {
        Some((steps, id)) => siblings_hold(el_v(id), steps, p),
        None => siblings_hold(mem_v(el_v(parent), "firstChild"@), place.passed.len(), p),
    }
}

proof fn walk_holds(root: Seq<char>, path: Seq<Seq<char>>, p: spec_fn(KindV) -> bool)
    ensures
        ok(walk_v(root, path), p),
    decreases path.len(),
{
    if path.len() > 0 {
        walk_holds(root, path.drop_last(), p);
    }
}

proof fn insertion_holds(
    start: StateV,
    span: Span,
    value: ExprV,
    parent: Seq<char>,
    children: Seq<JsxChild>,
    at: nat,
    setting: Setting,
    options: TransformOptions,
    vocabulary: Vocabulary,
    p: spec_fn(KindV) -> bool,
)
    requires
        body_ok(start.result, p),
        ok(value, p),
    ensures
        body_ok(
            insertion_v(
                start,
                span,
                value,
                parent,
                children,
                at,
                setting,
                options,
                vocabulary,
            ).result,
            p,
        ),
{
    broadcast use accessor_holds;

    reveal(insertion_v);
    let state = StateV { ctx: start.ctx.register("insert"@), ..start };
    let plain = state.with_placeholder(None);
    let kept = kept_for_v(plain, children, at, setting, true, options, vocabulary);
    assert(body_ok(markers_v(kept, parent).0.result, p)) by {
        reveal(markers_v);
    }
    let held = placeholder_v(state, parent, children, at, setting, options, vocabulary);
    assert(body_ok(held.0.result, p)) by {
        reveal(placeholder_v);
    }
}

// ---------------------------------------------------------------------------
// Children
// ---------------------------------------------------------------------------

proof fn insert_value_holds(expr: &Expr, options: TransformOptions, p: spec_fn(KindV) -> bool)
    requires
        expr_in(*expr, p),
    ensures
        ok(insert_value_v(*expr, options), p),
{
}

proof fn opened_holds(
    element: &JsxElement,
    info: InfoV,
    ctx: ContextV,
    options: TransformOptions,
    vocabulary: Vocabulary,
    p: spec_fn(KindV) -> bool,
)
    requires
        all_attrs_in(element.attrs@, p),
    ensures
        body_ok(opened_v(*element, info, ctx, options, vocabulary).0, p),
{
    reveal(opened_v);
    let base = base_v(*element, info.top_level, options, vocabulary);
    assert(body_ok(base, p));
    let known = if has_id(*element, info, options, vocabulary) {
        identified_v(element.span, info, base, ctx, options.hydratable)
    } else {
        (base, ctx)
    };
    assert(body_ok(known.0, p)) by {
        reveal(identified_v);
        if let Some(root) = info.root_id {
            walk_holds(root, info.path, p);
        }
    }
    let begun = known.0.starting(
        if is_wrapped(element.tag@, info.top_level, vocabulary) {
            "<svg><"@ + element.tag@
        } else {
            "<"@ + element.tag@
        },
    );
    let has_children = element.children@.len() > 0;
    attributes_hold(element.attrs@, has_children, begun, known.1, options, vocabulary, p);
    let set = attributes_v(element.attrs@, has_children, begun, known.1, options, vocabulary);
    let owned = owned_v(*element, set.0, set.1, options);
    assert(body_ok(owned.0, p)) by {
        reveal(owned_v);
    }
    assert(body_ok(given_children_v(set.3, owned.0, owned.1, options).0, p)) by {
        reveal(given_children_v);
        if let Some((expr, _)) = &set.3 {
            insert_value_holds(&**expr, options, p);
        }
    }
}

proof fn component_holds(
    element: &JsxElement,
    children: Seq<JsxChild>,
    at: nat,
    setting: Setting,
    state: StateV,
    options: TransformOptions,
    vocabulary: Vocabulary,
    p: spec_fn(KindV) -> bool,
)
    requires
        element.is_component,
        element_in(*element, p),
        body_ok(state.result, p),
    ensures
        body_ok(
            component_child_v(*element, children, at, setting, state, options, vocabulary).result,
            p,
        ),
{
    reveal(component_child_v);
    assert forall|start: StateV, value: ExprV, parent: Seq<char>|
        body_ok(start.result, p) && ok(value, p) implies body_ok(
        (#[trigger] insertion_v(
            start,
            element.span,
            value,
            parent,
            children,
            at,
            setting,
            options,
            vocabulary,
        )).result,
        p,
    ) by {
        insertion_holds(
            start,
            element.span,
            value,
            parent,
            children,
            at,
            setting,
            options,
            vocabulary,
            p,
        );
    }
}

proof fn text_walk_holds(
    state: StateV,
    walked: bool,
    has_component: bool,
    p: spec_fn(KindV) -> bool,
)
    requires
        body_ok(state.result, p),
    ensures
        body_ok(text_walk_v(state, walked, has_component).result, p),
{
    broadcast use accessor_holds;

    reveal(text_walk_v);
}

proof fn expr_child_holds(
    span: Span,
    expr: &Expr,
    children: Seq<JsxChild>,
    at: nat,
    setting: Setting,
    state: StateV,
    options: TransformOptions,
    vocabulary: Vocabulary,
    p: spec_fn(KindV) -> bool,
)
    requires
        expr_in(*expr, p),
        body_ok(state.result, p),
    ensures
        body_ok(
            expr_child_v(span, *expr, children, at, setting, state, options, vocabulary).result,
            p,
        ),
        body_ok(
            spread_child_v(span, *expr, children, at, setting, state, options, vocabulary).result,
            p,
        ),
{
    reveal(expr_child_v);
    reveal(spread_child_v);
    assert forall|start: StateV, walked: bool, has_component: bool|
        body_ok(start.result, p) implies body_ok(
        (#[trigger] text_walk_v(start, walked, has_component)).result,
        p,
    ) by {
        text_walk_holds(start, walked, has_component, p);
    }
    insert_value_holds(expr, options, p);
    assert forall|start: StateV, value: ExprV, parent: Seq<char>|
        body_ok(start.result, p) && ok(value, p) implies body_ok(
        (#[trigger] insertion_v(
            start,
            span,
            value,
            parent,
            children,
            at,
            setting,
            options,
            vocabulary,
        )).result,
        p,
    ) by {
        insertion_holds(start, span, value, parent, children, at, setting, options, vocabulary, p);
    }
}

proof fn placed_holds(
    element: &JsxElement,
    reached: bool,
    child: ResultV,
    setting: Setting,
    state: StateV,
    p: spec_fn(KindV) -> bool,
)
    requires
        body_ok(state.result, p),
        body_ok(child, p),
    ensures
        body_ok(placed_v(*element, reached, child, setting, state).result, p),
{
    broadcast use accessor_holds;

    reveal(placed_v);
    let shown = state.result.with_child_template(child);
    assert(ok(no_hydration_v(element.span), p));
    let run = shown.with_child(child);
    assert(body_ok(run, p));
}

proof fn child_holds(
    children: Seq<JsxChild>,
    at: nat,
    setting: Setting,
    parent_tag: Seq<char>,
    info: InfoV,
    state: StateV,
    options: TransformOptions,
    vocabulary: Vocabulary,
    p: spec_fn(KindV) -> bool,
)
    requires
        at < children.len(),
        child_in(children[at as int], p),
        body_ok(state.result, p),
    ensures
        body_ok(
            child_v(children, at, setting, parent_tag, info, state, options, vocabulary).result,
            p,
        ),
    decreases children, at,
{
    match &children[at as int] {
        JsxChild::Text(text) => {
            reveal(text_child_v);
            assert forall|start: StateV, walked: bool, has_component: bool|
                body_ok(start.result, p) implies body_ok(
                (#[trigger] text_walk_v(start, walked, has_component)).result,
                p,
            ) by {
                text_walk_holds(start, walked, has_component, p);
            }
        },
        JsxChild::Container { span, expr: Some(expr) } => {
            expr_child_holds(
                *span,
                &**expr,
                children,
                at,
                setting,
                state,
                options,
                vocabulary,
                p,
            );
        },
        JsxChild::Container { span, expr: None } => {},
        JsxChild::Spread { span, expr } => {
            expr_child_holds(
                *span,
                &**expr,
                children,
                at,
                setting,
                state,
                options,
                vocabulary,
                p,
            );
        },
        JsxChild::Fragment(fragment) => {
            assert(fragment_in(**fragment, p));
            list_holds(fragment.children@, parent_tag, info, state, options, vocabulary, p);
        },
        JsxChild::Element(element) => {
            let element: &JsxElement = &**element;
            assert(element_in(*element, p));
            if element.is_component {
                component_holds(element, children, at, setting, state, options, vocabulary, p);
            } else {
                let start = state.with_last_was_text(false).with_placeholder(None);
                let told = child_info_v(
                    element.tag@,
                    last_of(children, children.len(), last_asked(setting.hydratable)) == Some(at),
                    parent_tag,
                    info,
                    start.place,
                    setting.hydratable,
                );
                let forced = forced_v(*element, told, setting, start, options, vocabulary);
                assert(body_ok(forced.0.result, p)) by {
                    reveal(forced_v);
                }
                element_holds(element, forced.1, forced.0.ctx, options, vocabulary, p);
                let (child, ctx) = element_v(
                    *element,
                    forced.1,
                    forced.0.ctx,
                    options,
                    vocabulary,
                );
                placed_holds(
                    element,
                    is_reached(forced.1),
                    child,
                    setting,
                    StateV { ctx, ..forced.0 },
                    p,
                );
            }
        },
    }
}

proof fn items_hold(
    children: Seq<JsxChild>,
    n: nat,
    setting: Setting,
    parent_tag: Seq<char>,
    info: InfoV,
    state: StateV,
    options: TransformOptions,
    vocabulary: Vocabulary,
    p: spec_fn(KindV) -> bool,
)
    requires
        children_in(children, p),
        body_ok(state.result, p),
    ensures
        body_ok(
            items_v(children, n, setting, parent_tag, info, state, options, vocabulary).result,
            p,
        ),
    decreases children, n,
{
    if 0 < n <= children.len() {
        let last = (n - 1) as nat;
        items_hold(children, last, setting, parent_tag, info, state, options, vocabulary, p);
        let before = items_v(
            children,
            last,
            setting,
            parent_tag,
            info,
            state,
            options,
            vocabulary,
        );
        child_holds(children, last, setting, parent_tag, info, before, options, vocabulary, p);
    }
}

/// Children keep what holds of all JSX.
pub proof fn list_holds(
    children: Seq<JsxChild>,
    parent_tag: Seq<char>,
    info: InfoV,
    state: StateV,
    options: TransformOptions,
    vocabulary: Vocabulary,
    p: spec_fn(KindV) -> bool,
)
    requires
        children_in(children, p),
        body_ok(state.result, p),
    ensures
        body_ok(list_v(children, parent_tag, info, state, options, vocabulary).result, p),
    decreases children, children.len() + 1,
{
    let setting = setting_v(children, state.result.id is Some, options, vocabulary);
    let n = children.len();
    let matched = if options.hydratable && parent_tag == "html"@ && any_matched(children) {
        state.ctx.register("getNextMatch"@)
    } else {
        state.ctx
    };
    let ctx = if setting.lowers_first() {
        components_v(children, n, matched)
    } else {
        matched
    };
    let start = StateV { ctx, ..state };
    items_hold(children, n, setting, parent_tag, info, start, options, vocabulary, p);
}

/// An element keeps what holds of all JSX.
pub proof fn element_holds(
    element: &JsxElement,
    info: InfoV,
    ctx: ContextV,
    options: TransformOptions,
    vocabulary: Vocabulary,
    p: spec_fn(KindV) -> bool,
)
    requires
        !element.is_component,
        element_in(*element, p),
    ensures
        body_ok(element_v(*element, info, ctx, options, vocabulary).0, p),
    decreases element, 0nat,
{
    assert(ok(no_hydration_v(element.span), p));
    let opened = opened_v(*element, info, ctx, options, vocabulary);
    opened_holds(element, info, ctx, options, vocabulary, p);
    let start = StateV {
        result: ResultV { post_exprs: seq![], ..opened.0 },
        ctx: opened.1,
        place: at_start(),
    };
    let below = info.below(element.tag@, opened.0.id, options, vocabulary);
    list_holds(element.children@, element.tag@, below, start, options, vocabulary, p);
    let done = list_v(element.children@, element.tag@, below, start, options, vocabulary);
    let filled = ResultV {
        post_exprs: done.result.post_exprs + opened.0.post_exprs,
        ..done.result
    };
    finished_holds(element, info, opened.0, opened.1, options, vocabulary, p);
    finished_holds(element, info, filled, done.ctx, options, vocabulary, p);
}

proof fn finished_holds(
    element: &JsxElement,
    info: InfoV,
    result: ResultV,
    ctx: ContextV,
    options: TransformOptions,
    vocabulary: Vocabulary,
    p: spec_fn(KindV) -> bool,
)
    requires
        body_ok(result, p),
    ensures
        body_ok(finished_v(*element, info, result, ctx, options, vocabulary).0, p),
{
    reveal(finished_v);
}

} // verus!
