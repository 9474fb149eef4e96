//! Elements and their children leave what the file has gathered.

use crate::all_attributes::attributes_v;
use crate::ast::{ExprV, JsxChild, JsxElement, Span};
use crate::element::{
    any_matched, at_start, child_info_v, child_v, component_child_v, components_v, element_v,
    expr_child_v, finished_v, forced_v, given_children_v, identified_v, items_v, list_v,
    opened_v, owned_v, placed_v, setting_v, spread_child_v, text_child_v,
};
use crate::growth::{group_growth, grows};
use crate::growth_attributes::attributes_grow;
use crate::info::InfoV;
use crate::ir::{ContextV, ResultV};
use crate::options::TransformOptions;
use crate::place::{
    insertion_v, kept_for_v, markers_v, placeholder_v, slot_v, slots_v, text_walk_v, Setting,
    SlotsV, StateV,
};
use crate::scan::{last_asked, last_of};
use crate::vocabulary::Vocabulary;
use vstd::prelude::*;

verus! {

broadcast use group_growth;

// ---------------------------------------------------------------------------
// Places
// ---------------------------------------------------------------------------

proof fn slot_grows(
    child: &JsxChild,
    split: bool,
    runtime: bool,
    slots: SlotsV,
    options: TransformOptions,
    vocabulary: Vocabulary,
)
    ensures
        grows(slots.ctx, slot_v(*child, split, runtime, slots, options, vocabulary).ctx),
    decreases child, 0nat,
{
    match child {
        JsxChild::Fragment(fragment) => {
            slots_grow(
                fragment.children@,
                0,
                fragment.children@.len(),
                split,
                runtime,
                slots,
                options,
                vocabulary,
            );
        },
        _ => {},
    }
}

proof fn slots_grow(
    children: Seq<JsxChild>,
    from: nat,
    to: nat,
    split: bool,
    runtime: bool,
    slots: SlotsV,
    options: TransformOptions,
    vocabulary: Vocabulary,
)
    ensures
        grows(
            slots.ctx,
            slots_v(children, from, to, split, runtime, slots, options, vocabulary).ctx,
        ),
    decreases children, to,
{
    if from < to <= children.len() {
        let before = (to - 1) as nat;
        slots_grow(children, from, before, split, runtime, slots, options, vocabulary);
        slot_grows(
            &children[to - 1],
            split,
            runtime,
            slots_v(children, from, before, split, runtime, slots, options, vocabulary),
            options,
            vocabulary,
        );
    }
}

proof fn kept_grows(
    state: StateV,
    children: Seq<JsxChild>,
    at: nat,
    setting: Setting,
    runtime: bool,
    options: TransformOptions,
    vocabulary: Vocabulary,
)
    ensures
        grows(
            state.ctx,
            kept_for_v(state, children, at, setting, runtime, options, vocabulary).ctx,
        ),
{
    slots_grow(
        children,
        at + 1,
        children.len(),
        setting.has_component,
        runtime,
        SlotsV { last_was_text: false, pool: seq![], ctx: state.ctx },
        options,
        vocabulary,
    );
}

proof fn insertion_grows(
    start: StateV,
    span: Span,
    value: ExprV,
    parent: Seq<char>,
    children: Seq<JsxChild>,
    at: nat,
    setting: Setting,
    options: TransformOptions,
    vocabulary: Vocabulary,
)
    ensures
        grows(
            start.ctx,
            insertion_v(
                start,
                span,
                value,
                parent,
                children,
                at,
                setting,
                options,
                vocabulary,
            ).ctx,
        ),
{
    reveal(insertion_v);
    let state = StateV { ctx: start.ctx.register("insert"@), ..start };
    let plain = state.with_placeholder(None);
    let kept = kept_for_v(plain, children, at, setting, true, options, vocabulary);
    kept_grows(plain, children, at, setting, true, options, vocabulary);
    assert(grows(kept.ctx, markers_v(kept, parent).0.ctx)) by {
        reveal(markers_v);
    }
    kept_grows(state, children, at, setting, false, options, vocabulary);
    let held = placeholder_v(state, parent, children, at, setting, options, vocabulary);
    assert(grows(state.ctx, held.0.ctx)) by {
        reveal(placeholder_v);
    }
}

// ---------------------------------------------------------------------------
// Children
// ---------------------------------------------------------------------------

proof fn opened_grows(
    element: &JsxElement,
    info: InfoV,
    ctx: ContextV,
    options: TransformOptions,
    vocabulary: Vocabulary,
)
    ensures
        grows(ctx, opened_v(*element, info, ctx, options, vocabulary).1),
{
    reveal(opened_v);
    reveal(identified_v);
    reveal(owned_v);
    reveal(given_children_v);
    let attrs = element.attrs@;
    let has_children = element.children@.len() > 0;
    assert forall|result: ResultV, before: ContextV|
        grows(
            before,
            (#[trigger] attributes_v(
                attrs,
                has_children,
                result,
                before,
                options,
                vocabulary,
            )).1,
        ) by {
        attributes_grow(attrs, has_children, result, before, options, vocabulary);
    }
}

/// A child leaves what the file has gathered.
pub proof fn child_grows(
    children: Seq<JsxChild>,
    at: nat,
    setting: Setting,
    parent_tag: Seq<char>,
    info: InfoV,
    state: StateV,
    options: TransformOptions,
    vocabulary: Vocabulary,
)
    ensures
        grows(
            state.ctx,
            child_v(children, at, setting, parent_tag, info, state, options, vocabulary).ctx,
        ),
    decreases children, at,
{
    if at < children.len() {
        let quiet = state.with_last_was_text(false);
        match &children[at as int] {
            JsxChild::Text(text) => {
                reveal(text_child_v);
                reveal(text_walk_v);
            },
            JsxChild::Container { span, expr: Some(expr) } => {
                reveal(expr_child_v);
                reveal(text_walk_v);
                assert forall|start: StateV, value: ExprV|
                    grows(
                        start.ctx,
                        (#[trigger] insertion_v(
                            start,
                            *span,
                            value,
                            state.result.id->0,
                            children,
                            at,
                            setting,
                            options,
                            vocabulary,
                        )).ctx,
                    ) by {
                    insertion_grows(
                        start,
                        *span,
                        value,
                        state.result.id->0,
                        children,
                        at,
                        setting,
                        options,
                        vocabulary,
                    );
                }
            },
            JsxChild::Container { span, expr: None } => {},
            JsxChild::Spread { span, expr } => {
                reveal(spread_child_v);
                assert forall|value: ExprV|
                    grows(
                        quiet.ctx,
                        (#[trigger] insertion_v(
                            quiet,
                            *span,
                            value,
                            state.result.id->0,
                            children,
                            at,
                            setting,
                            options,
                            vocabulary,
                        )).ctx,
                    ) by {
                    insertion_grows(
                        quiet,
                        *span,
                        value,
                        state.result.id->0,
                        children,
                        at,
                        setting,
                        options,
                        vocabulary,
                    );
                }
            },
            JsxChild::Fragment(fragment) => {
                list_grows(fragment.children@, parent_tag, info, state, options, vocabulary);
            },
            JsxChild::Element(element) => {
                let element: &JsxElement = &**element;
                if element.is_component {
                    component_grows(
                        element,
                        children,
                        at,
                        setting,
                        state,
                        options,
                        vocabulary,
                    );
                } else {
                    let start = quiet.with_placeholder(None);
                    let told = child_info_v(
                        element.tag@,
                        last_of(children, children.len(), last_asked(setting.hydratable)) == Some(
                            at,
                        ),
                        parent_tag,
                        info,
                        start.place,
                        setting.hydratable,
                    );
                    let forced = forced_v(*element, told, setting, start, options, vocabulary);
                    assert(grows(start.ctx, forced.0.ctx)) by {
                        reveal(forced_v);
                    }
                    element_grows(element, forced.1, forced.0.ctx, options, vocabulary);
                    reveal(placed_v);
                }
            },
        }
    }
}

proof fn component_grows(
    element: &JsxElement,
    children: Seq<JsxChild>,
    at: nat,
    setting: Setting,
    state: StateV,
    options: TransformOptions,
    vocabulary: Vocabulary,
)
    ensures
        grows(
            state.ctx,
            component_child_v(*element, children, at, setting, state, options, vocabulary).ctx,
        ),
{
    reveal(component_child_v);
    reached_grows(element, state.ctx);
    assert forall|start: StateV, value: ExprV, parent: Seq<char>|
        grows(
            start.ctx,
            (#[trigger] insertion_v(
                start,
                element.span,
                value,
                parent,
                children,
                at,
                setting,
                options,
                vocabulary,
            )).ctx,
        ) by {
        insertion_grows(
            start,
            element.span,
            value,
            parent,
            children,
            at,
            setting,
            options,
            vocabulary,
        );
    }
}

proof fn items_grow(
    children: Seq<JsxChild>,
    n: nat,
    setting: Setting,
    parent_tag: Seq<char>,
    info: InfoV,
    state: StateV,
    options: TransformOptions,
    vocabulary: Vocabulary,
)
    ensures
        grows(
            state.ctx,
            items_v(children, n, setting, parent_tag, info, state, options, vocabulary).ctx,
        ),
    decreases children, n,
{
    if 0 < n <= children.len() {
        let last = (n - 1) as nat;
        items_grow(children, last, setting, parent_tag, info, state, options, vocabulary);
        let before = items_v(
            children,
            last,
            setting,
            parent_tag,
            info,
            state,
            options,
            vocabulary,
        );
        child_grows(children, last, setting, parent_tag, info, before, options, vocabulary);
    }
}

proof fn components_grow(children: Seq<JsxChild>, n: nat, ctx: ContextV)
    ensures
        grows(ctx, components_v(children, n, ctx)),
    decreases n,
{
    if 0 < n <= children.len() {
        components_grow(children, (n - 1) as nat, ctx);
        let before = components_v(children, (n - 1) as nat, ctx);
        if let JsxChild::Element(element) = &children[n - 1] {
            reached_grows(element, before);
        }
    }
}

/// A component that is reached leaves what the file has gathered.
pub proof fn reached_grows(element: &JsxElement, ctx: ContextV)
    ensures
        grows(ctx, ctx.reaching(*element)),
{
}

/// Children leave what the file has gathered.
pub proof fn list_grows(
    children: Seq<JsxChild>,
    parent_tag: Seq<char>,
    info: InfoV,
    state: StateV,
    options: TransformOptions,
    vocabulary: Vocabulary,
)
    ensures
        grows(
            state.ctx,
            list_v(children, parent_tag, info, state, options, vocabulary).ctx,
        ),
    decreases children, children.len() + 1,
{
    let setting = setting_v(children, state.result.id is Some, options, vocabulary);
    let n = children.len();
    let matched = if options.hydratable && parent_tag == "html"@ && any_matched(children) {
        state.ctx.register("getNextMatch"@)
    } else {
        state.ctx
    };
    components_grow(children, n, matched);
    let ctx = if setting.lowers_first() {
        components_v(children, n, matched)
    } else {
        matched
    };
    let start = StateV { ctx, ..state };
    items_grow(children, n, setting, parent_tag, info, start, options, vocabulary);
}

/// An element leaves what the file has gathered.
pub proof fn element_grows(
    element: &JsxElement,
    info: InfoV,
    ctx: ContextV,
    options: TransformOptions,
    vocabulary: Vocabulary,
)
    ensures
        grows(ctx, element_v(*element, info, ctx, options, vocabulary).1),
    decreases element, 0nat,
{
    reveal(finished_v);
    opened_grows(element, info, ctx, options, vocabulary);
    let opened = opened_v(*element, info, ctx, options, vocabulary);
    list_grows(
        element.children@,
        element.tag@,
        info.below(element.tag@, opened.0.id, options, vocabulary),
        StateV {
            result: ResultV { post_exprs: seq![], ..opened.0 },
            ctx: opened.1,
            place: at_start(),
        },
        options,
        vocabulary,
    );
}

} // verus!
