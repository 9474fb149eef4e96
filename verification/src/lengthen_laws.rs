//! The template of an element, from its opening to its closing tag.

use crate::all_attributes::attributes_v;
use crate::ast::{Expr, ExprV, JsxChild, JsxElement, Span};
use crate::element::{
    any_matched, at_start, child_v, component_child_v, components_v, element_v, expr_child_v,
    finished_v, forced_v, given_children_v, is_wrapped, items_v, list_v, opened_v, owned_v,
    placed_v, setting_v, spread_child_v, text_child_v,
};
use crate::info::InfoV;
use crate::ir::{ContextV, ResultV};
use crate::lengthen::{begins, group_lengthen, lengthens};
use crate::lengthen_attributes::attributes_lengthen;
use crate::options::TransformOptions;
use crate::place::{insertion_v, markers_v, placeholder_v, text_walk_v, Setting, StateV};
use crate::vocabulary::Vocabulary;
use vstd::prelude::*;

verus! {

broadcast use group_lengthen;

/// How the templates of an element begin.
pub open spec fn opening(tag: Seq<char>, wrapped: bool) -> Seq<char> {
    if wrapped {
        "<svg><"@ + tag
    } else {
        "<"@ + tag
    }
}

/// How the template with all closing tags ends.
pub open spec fn ending(tag: Seq<char>, is_void: bool, wrapped: bool) -> Seq<char> {
    (if is_void {
        Seq::empty()
    } else {
        "</"@ + tag + ">"@
    }) + (if wrapped {
        "</svg>"@
    } else {
        Seq::empty()
    })
}

proof fn insertion_lengthens(
    start: StateV,
    span: Span,
    value: ExprV,
    parent: Seq<char>,
    children: Seq<JsxChild>,
    at: nat,
    setting: Setting,
    options: TransformOptions,
    vocabulary: Vocabulary,
)
    ensures
        lengthens(
            start.result,
            insertion_v(
                start,
                span,
                value,
                parent,
                children,
                at,
                setting,
                options,
                vocabulary,
            ).result,
        ),
{
    reveal(insertion_v);
    reveal(markers_v);
    reveal(placeholder_v);
}

proof fn opened_lengthens(
    element: &JsxElement,
    info: InfoV,
    ctx: ContextV,
    options: TransformOptions,
    vocabulary: Vocabulary,
)
    ensures
        ({
            let opened = opened_v(*element, info, ctx, options, vocabulary).0;
            let start = opening(
                element.tag@,
                is_wrapped(element.tag@, info.top_level, vocabulary),
            );
            begins(start, opened.template) && begins(start, opened.closed)
        }),
{
    reveal(opened_v);
    reveal(owned_v);
    reveal(given_children_v);
    let attrs = element.attrs@;
    let has_children = element.children@.len() > 0;
    assert forall|result: ResultV, before: ContextV|
        lengthens(
            result,
            (#[trigger] attributes_v(
                attrs,
                has_children,
                result,
                before,
                options,
                vocabulary,
            )).0,
        ) by {
        attributes_lengthen(attrs, has_children, result, before, options, vocabulary);
    }
}

proof fn insertions_lengthen(
    children: Seq<JsxChild>,
    at: nat,
    setting: Setting,
    options: TransformOptions,
    vocabulary: Vocabulary,
)
    ensures
        forall|start: StateV, span: Span, value: ExprV, parent: Seq<char>|
            lengthens(
                start.result,
                (#[trigger] insertion_v(
                    start,
                    span,
                    value,
                    parent,
                    children,
                    at,
                    setting,
                    options,
                    vocabulary,
                )).result,
            ),
{
    assert forall|start: StateV, span: Span, value: ExprV, parent: Seq<char>|
        lengthens(
            start.result,
            (#[trigger] insertion_v(
                start,
                span,
                value,
                parent,
                children,
                at,
                setting,
                options,
                vocabulary,
            )).result,
        ) by {
        insertion_lengthens(
            start,
            span,
            value,
            parent,
            children,
            at,
            setting,
            options,
            vocabulary,
        );
    }
}

proof fn expr_child_lengthens(
    span: Span,
    expr: &Expr,
    children: Seq<JsxChild>,
    at: nat,
    setting: Setting,
    state: StateV,
    options: TransformOptions,
    vocabulary: Vocabulary,
)
    ensures
        lengthens(
            state.result,
            expr_child_v(span, *expr, children, at, setting, state, options, vocabulary).result,
        ),
        lengthens(
            state.result,
            spread_child_v(span, *expr, children, at, setting, state, options, vocabulary).result,
        ),
{
    insertions_lengthen(children, at, setting, options, vocabulary);
    reveal(expr_child_v);
    reveal(spread_child_v);
    reveal(text_walk_v);
}

proof fn component_lengthens(
    element: &JsxElement,
    children: Seq<JsxChild>,
    at: nat,
    setting: Setting,
    state: StateV,
    options: TransformOptions,
    vocabulary: Vocabulary,
)
    ensures
        lengthens(
            state.result,
            component_child_v(*element, children, at, setting, state, options, vocabulary).result,
        ),
{
    insertions_lengthen(children, at, setting, options, vocabulary);
    reveal(component_child_v);
}

proof fn child_lengthens(
    children: Seq<JsxChild>,
    at: nat,
    setting: Setting,
    parent_tag: Seq<char>,
    info: InfoV,
    state: StateV,
    options: TransformOptions,
    vocabulary: Vocabulary,
)
    ensures
        lengthens(
            state.result,
            child_v(children, at, setting, parent_tag, info, state, options, vocabulary).result,
        ),
    decreases children, at,
{
    if at < children.len() {
        match &children[at as int] {
            JsxChild::Text(text) => {
                reveal(text_child_v);
                reveal(text_walk_v);
            },
            JsxChild::Container { span, expr } => {
                if let Some(expr) = expr {
                    expr_child_lengthens(
                        *span,
                        &**expr,
                        children,
                        at,
                        setting,
                        state,
                        options,
                        vocabulary,
                    );
                }
            },
            JsxChild::Spread { span, expr } => {
                expr_child_lengthens(
                    *span,
                    &**expr,
                    children,
                    at,
                    setting,
                    state,
                    options,
                    vocabulary,
                );
            },
            JsxChild::Fragment(fragment) => {
                list_lengthens(fragment.children@, parent_tag, info, state, options, vocabulary);
            },
            JsxChild::Element(element) => {
                if element.is_component {
                    component_lengthens(
                        &**element,
                        children,
                        at,
                        setting,
                        state,
                        options,
                        vocabulary,
                    );
                } else {
                    reveal(forced_v);
                    reveal(placed_v);
                }
            },
        }
    }
}

proof fn items_lengthen(
    children: Seq<JsxChild>,
    n: nat,
    setting: Setting,
    parent_tag: Seq<char>,
    info: InfoV,
    state: StateV,
    options: TransformOptions,
    vocabulary: Vocabulary,
)
    ensures
        lengthens(
            state.result,
            items_v(children, n, setting, parent_tag, info, state, options, vocabulary).result,
        ),
    decreases children, n,
{
    if 0 < n <= children.len() {
        let last = (n - 1) as nat;
        items_lengthen(children, last, setting, parent_tag, info, state, options, vocabulary);
        let before = items_v(
            children,
            last,
            setting,
            parent_tag,
            info,
            state,
            options,
            vocabulary,
        );
        child_lengthens(children, last, setting, parent_tag, info, before, options, vocabulary);
    }
}

/// Children are written behind what stands in the templates.
pub proof fn list_lengthens(
    children: Seq<JsxChild>,
    parent_tag: Seq<char>,
    info: InfoV,
    state: StateV,
    options: TransformOptions,
    vocabulary: Vocabulary,
)
    ensures
        lengthens(
            state.result,
            list_v(children, parent_tag, info, state, options, vocabulary).result,
        ),
    decreases children, children.len() + 1,
{
    let setting = setting_v(children, state.result.id is Some, options, vocabulary);
    let told = if options.hydratable && parent_tag == "html"@ && any_matched(children) {
        state.ctx.register("getNextMatch"@)
    } else {
        state.ctx
    };
    let ctx = if setting.lowers_first() {
        components_v(children, children.len(), told)
    } else {
        told
    };
    let start = StateV { ctx, ..state };
    items_lengthen(children, children.len(), setting, parent_tag, info, start, options, vocabulary);
}

/// Both templates of an element begin with `<` and its tag; the one with all
/// closing tags ends with the closing tag of the element, and the other does
/// so where the element is closed at all.  A part of an SVG that stands alone
/// lies in an `svg` element.
pub proof fn element_is_enclosed(
    element: &JsxElement,
    info: InfoV,
    ctx: ContextV,
    options: TransformOptions,
    vocabulary: Vocabulary,
)
    requires
        !(options.hydratable && element.tag@ == "head"@ && info.top_level),
    ensures
        ({
            let tag = element.tag@;
            let result = element_v(*element, info, ctx, options, vocabulary).0;
            let wrapped = is_wrapped(tag, info.top_level, vocabulary);
            let end = ending(tag, vocabulary.is_void(tag), wrapped);
            &&& opening(tag, wrapped).is_prefix_of(result.template)
            &&& opening(tag, wrapped).is_prefix_of(result.closed)
            &&& end.is_suffix_of(result.closed)
            &&& info.closes(tag, options) ==> end.is_suffix_of(result.template)
        }),
{
    let tag = element.tag@;
    let wrapped = is_wrapped(tag, info.top_level, vocabulary);
    opened_lengthens(element, info, ctx, options, vocabulary);
    let (opened, ctx1) = opened_v(*element, info, ctx, options, vocabulary);
    let start = StateV {
        result: ResultV { post_exprs: seq![], ..opened },
        ctx: ctx1,
        place: at_start(),
    };
    let below = info.below(tag, opened.id, options, vocabulary);
    list_lengthens(element.children@, tag, below, start, options, vocabulary);
    let done = list_v(element.children@, tag, below, start, options, vocabulary);
    let filled = ResultV {
        post_exprs: done.result.post_exprs + opened.post_exprs,
        ..done.result
    };
    let before = if vocabulary.is_void(tag) || tag == "noscript"@ {
        opened
    } else {
        filled
    };
    let last = if vocabulary.is_void(tag) || tag == "noscript"@ {
        ctx1
    } else {
        done.ctx
    };
    let result = element_v(*element, info, ctx, options, vocabulary).0;
    assert(result == finished_v(*element, info, before, last, options, vocabulary).0);
    finish_is_last(element, info, before, last, options, vocabulary);
    reveal(begins);
}

proof fn finish_is_last(
    element: &JsxElement,
    info: InfoV,
    before: ResultV,
    ctx: ContextV,
    options: TransformOptions,
    vocabulary: Vocabulary,
)
    ensures
        ({
            let tag = element.tag@;
            let result = finished_v(*element, info, before, ctx, options, vocabulary).0;
            let wrapped = is_wrapped(tag, info.top_level, vocabulary);
            let end = ending(tag, vocabulary.is_void(tag), wrapped);
            &&& lengthens(before, result)
            &&& result.closed == before.closed + end
            &&& info.closes(tag, options) ==> result.template == before.template + end
        }),
{
    reveal(finished_v);
    let tag = element.tag@;
    let end = "</"@ + tag + ">"@;
    let none = Seq::<char>::empty();
    assert forall|text: Seq<char>| #[trigger] (text + (none + none)) == text by {
        assert(text + (none + none) =~= text);
    }
    assert forall|text: Seq<char>| #[trigger] (text + (end + none)) == text + end by {
        assert(text + (end + none) =~= text + end);
    }
    assert forall|text: Seq<char>| #[trigger] (text + (none + "</svg>"@)) == text + "</svg>"@ by {
        assert(text + (none + "</svg>"@) =~= text + "</svg>"@);
    }
    assert forall|text: Seq<char>|
        #[trigger] (text + (end + "</svg>"@)) == text + end + "</svg>"@ by {
        assert(text + (end + "</svg>"@) =~= text + end + "</svg>"@);
    }
}

} // verus!
