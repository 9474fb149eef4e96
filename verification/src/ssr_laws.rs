//! A server render only adds: what was asked for keeps its number, and what
//! was written keeps its place.

use crate::all_attributes::has_spread;
use crate::ast::{
    no_span, ExprV, JsxAttr, JsxAttribute, JsxChild, JsxElement, KindV, Span, StmtV,
};
use crate::escape::{escaped_body_v, escaped_each_v, escaped_function_v, escaped_v};
use crate::ir::helper_v;
use crate::make::{call_v, with_span_v};
use crate::options::TransformOptions;
use crate::ssr::{hoist_v, new_result, PartV, SsrContextV, SsrResultV};
use crate::ssr_attribute::{
    attr_v, class_attr_v, expr_attr_v, other_attr_v, style_attr_v, style_chain_v, style_value_v,
};
use crate::ssr_attributes::{attributes_v, plan_v, set_each_v, set_one_v, PlanV, SetV};
use crate::ssr_element::{
    children_v, content_of_v, element_v, given_content_v, nodes_v, props_v, spread_element_v,
};
use crate::ssr_growth::{asks_more, group_server_growth, writes_more};
use crate::vocabulary::Vocabulary;
use vstd::prelude::*;

verus! {

broadcast use group_server_growth;

// ---------------------------------------------------------------------------
// Escaping
// ---------------------------------------------------------------------------

/// Escaping an expression only asks for more.
pub broadcast proof fn escaping_asks_more(
    expr: ExprV,
    attr: bool,
    literals: bool,
    ctx: SsrContextV,
)
    ensures
        asks_more(ctx, (#[trigger] escaped_v(expr, attr, literals, ctx)).1),
    decreases expr, 1nat,
{
    match expr.kind {
        KindV::Template { quasis, exprs } => {
            each_asks_more(exprs, exprs.len(), attr, literals, ctx);
        },
        KindV::Function { .. } => {
            function_asks_more(expr, attr, literals, ctx);
        },
        KindV::Arrow { .. } => {
            function_asks_more(expr, attr, literals, ctx);
        },
        KindV::Binary { op, left, right } => {
            escaping_asks_more(*left, attr, literals, ctx);
            let first = escaped_v(*left, attr, literals, ctx).1;
            escaping_asks_more(*right, attr, literals, first);
        },
        KindV::Conditional { test, consequent, alternate } => {
            escaping_asks_more(*consequent, attr, literals, ctx);
            let first = escaped_v(*consequent, attr, literals, ctx).1;
            escaping_asks_more(*alternate, attr, literals, first);
        },
        KindV::Logical { op, left, right } => {
            escaping_asks_more(*right, attr, literals, ctx);
            let first = escaped_v(*right, attr, literals, ctx).1;
            escaping_asks_more(*left, attr, literals, first);
        },
        KindV::Call { callee, args, optional } => {
            function_asks_more(*callee, attr, literals, ctx);
        },
        _ => {},
    }
}

proof fn function_asks_more(expr: ExprV, attr: bool, literals: bool, ctx: SsrContextV)
    ensures
        asks_more(ctx, escaped_function_v(expr, attr, literals, ctx).1),
    decreases expr, 0nat,
{
    match expr.kind {
        KindV::Function { is_async, generator, name, params, body } => {
            body_asks_more(body, body.len(), false, attr, literals, ctx);
        },
        KindV::Arrow { is_async, params, expression, body } => {
            body_asks_more(body, body.len(), expression, attr, literals, ctx);
        },
        _ => {},
    }
}

proof fn body_asks_more(
    body: Seq<StmtV>,
    n: nat,
    expression: bool,
    attr: bool,
    literals: bool,
    ctx: SsrContextV,
)
    ensures
        asks_more(ctx, escaped_body_v(body, n, expression, attr, literals, ctx).1),
    decreases body, n,
{
    if 0 < n <= body.len() {
        let last = (n - 1) as nat;
        body_asks_more(body, last, expression, attr, literals, ctx);
        let before = escaped_body_v(body, last, expression, attr, literals, ctx).1;
        match body[n - 1] {
            StmtV::Return(Some(argument)) => {
                escaping_asks_more(argument, attr, literals, before);
            },
            StmtV::Expr(inner) => {
                escaping_asks_more(inner, attr, literals, before);
            },
            _ => {},
        }
    }
}

proof fn each_asks_more(exprs: Seq<ExprV>, n: nat, attr: bool, literals: bool, ctx: SsrContextV)
    ensures
        asks_more(ctx, escaped_each_v(exprs, n, attr, literals, ctx).1),
    decreases exprs, n,
{
    if 0 < n <= exprs.len() {
        let last = (n - 1) as nat;
        each_asks_more(exprs, last, attr, literals, ctx);
        let before = escaped_each_v(exprs, last, attr, literals, ctx).1;
        escaping_asks_more(exprs[n - 1], attr, literals, before);
    }
}

// ---------------------------------------------------------------------------
// Attributes
// ---------------------------------------------------------------------------

proof fn chain_asks_more(styles: Seq<(Seq<char>, ExprV)>, n: nat, ctx: SsrContextV)
    ensures
        asks_more(ctx, style_chain_v(styles, n, ctx).1),
    decreases n,
{
    if 0 < n <= styles.len() {
        let last = (n - 1) as nat;
        chain_asks_more(styles, last, ctx);
        let before = style_chain_v(styles, last, ctx).1;
        escaping_asks_more(styles[n - 1].1, true, true, before);
    }
}

proof fn style_asks_more(expr: ExprV, ctx: SsrContextV)
    ensures
        asks_more(ctx, style_value_v(expr, ctx).1),
{
    reveal(style_value_v);
    assert forall|styles: Seq<(Seq<char>, ExprV)>, n: nat, from: SsrContextV|
        asks_more(from, (#[trigger] style_chain_v(styles, n, from)).1) by {
        chain_asks_more(styles, n, from);
    }
}

proof fn expr_attr_adds(
    key: Seq<char>,
    expr: ExprV,
    span: Span,
    is_svg: bool,
    result: SsrResultV,
    ctx: SsrContextV,
    options: TransformOptions,
    vocabulary: Vocabulary,
)
    ensures
        ({
            let done = expr_attr_v(key, expr, span, is_svg, result, ctx, options, vocabulary);
            writes_more(result, done.0) && asks_more(ctx, done.1)
        }),
{
    broadcast use escaping_asks_more;

    reveal(expr_attr_v);
    reveal(style_attr_v);
    reveal(class_attr_v);
    reveal(other_attr_v);
    style_asks_more(expr, ctx);
    style_asks_more(with_span_v(expr, no_span()), ctx);
}

proof fn attr_adds(
    attr: JsxAttribute,
    is_svg: bool,
    result: SsrResultV,
    ctx: SsrContextV,
    options: TransformOptions,
    vocabulary: Vocabulary,
)
    ensures
        ({
            let done = attr_v(attr, is_svg, result, ctx, options, vocabulary);
            writes_more(result, done.0) && asks_more(ctx, done.1)
        }),
{
    reveal(attr_v);
    assert forall|key: Seq<char>, expr: ExprV, span: Span| ({
        let done = #[trigger] expr_attr_v(key, expr, span, is_svg, result, ctx, options, vocabulary);
        writes_more(result, done.0) && asks_more(ctx, done.1)
    }) by {
        expr_attr_adds(key, expr, span, is_svg, result, ctx, options, vocabulary);
    }
}

/// One state of the attributes has all of another.
spec fn adds(before: SetV, after: SetV) -> bool {
    writes_more(before.result, after.result) && asks_more(before.ctx, after.ctx)
}

proof fn one_adds(
    attr: JsxAttr,
    at: nat,
    plan: PlanV,
    is_svg: bool,
    state: SetV,
    options: TransformOptions,
    vocabulary: Vocabulary,
)
    ensures
        adds(state, set_one_v(attr, at, plan, is_svg, state, options, vocabulary)),
{
    reveal(set_one_v);
    let result = state.result;
    let ctx = state.ctx;
    assert forall|key: Seq<char>, expr: ExprV, span: Span| ({
        let done = #[trigger] expr_attr_v(key, expr, span, is_svg, result, ctx, options, vocabulary);
        writes_more(result, done.0) && asks_more(ctx, done.1)
    }) by {
        expr_attr_adds(key, expr, span, is_svg, result, ctx, options, vocabulary);
    }
    if let JsxAttr::Named(attr) = attr {
        attr_adds(attr, is_svg, result, ctx, options, vocabulary);
    }
}

proof fn each_adds(
    attrs: Seq<JsxAttr>,
    n: nat,
    plan: PlanV,
    is_svg: bool,
    state: SetV,
    options: TransformOptions,
    vocabulary: Vocabulary,
)
    ensures
        adds(state, set_each_v(attrs, n, plan, is_svg, state, options, vocabulary)),
    decreases n,
{
    if 0 < n <= attrs.len() {
        let last = (n - 1) as nat;
        each_adds(attrs, last, plan, is_svg, state, options, vocabulary);
        let before = set_each_v(attrs, last, plan, is_svg, state, options, vocabulary);
        one_adds(attrs[n - 1], last, plan, is_svg, before, options, vocabulary);
    }
}

/// The attributes of an element only add.
pub proof fn attributes_add(
    attrs: Seq<JsxAttr>,
    is_svg: bool,
    result: SsrResultV,
    ctx: SsrContextV,
    options: TransformOptions,
    vocabulary: Vocabulary,
)
    ensures
        writes_more(result, attributes_v(attrs, is_svg, result, ctx, options, vocabulary).0),
        asks_more(ctx, attributes_v(attrs, is_svg, result, ctx, options, vocabulary).1),
{
    reveal(attributes_v);
    let start = SetV { result, ctx, styled: false, classed: false };
    each_adds(attrs, attrs.len(), plan_v(attrs), is_svg, start, options, vocabulary);
    assert forall|key: Seq<char>, expr: ExprV, span: Span, r: SsrResultV, c: SsrContextV| ({
        let done = #[trigger] expr_attr_v(key, expr, span, is_svg, r, c, options, vocabulary);
        writes_more(r, done.0) && asks_more(c, done.1)
    }) by {
        expr_attr_adds(key, expr, span, is_svg, r, c, options, vocabulary);
    }
}

// ---------------------------------------------------------------------------
// Elements
// ---------------------------------------------------------------------------

proof fn content_adds(
    attrs: Seq<JsxAttr>,
    from: int,
    result: SsrResultV,
    ctx: SsrContextV,
    options: TransformOptions,
)
    requires
        0 <= from,
    ensures
        given_content_v(attrs, from, result, ctx, options) matches Some(done) ==> writes_more(
            result,
            done.0,
        ) && asks_more(ctx, done.1),
    decreases attrs.len() - from,
{
    broadcast use escaping_asks_more;

    if from < attrs.len() {
        reveal(content_of_v);
        content_adds(attrs, from + 1, result, ctx, options);
    }
}

/// The result and the context of an element as its children begin.
spec fn opened_v(
    element: JsxElement,
    top_level: bool,
    ctx: SsrContextV,
    options: TransformOptions,
    vocabulary: Vocabulary,
) -> (SsrResultV, SsrContextV) {
    let begun = new_result(element.span).with_static("<"@ + element.tag@);
    let held = hoist_v(
        begun,
        ctx.with_helper("ssrHydrationKey"@),
        call_v(no_span(), helper_v(no_span(), "ssrHydrationKey"@), seq![]),
        false,
        false,
        true,
    );
    let keyed = if top_level && ctx.hydratable && options.hydratable {
        (held.0.with_dynamic(held.2), held.1)
    } else {
        (begun, ctx)
    };
    let is_svg = vocabulary.is_svg(element.tag@);
    let set = attributes_v(element.attrs@, is_svg, keyed.0, keyed.1, options, vocabulary);
    (set.0.with_static(">"@), set.1)
}

proof fn opening_adds(
    element: &JsxElement,
    top_level: bool,
    ctx: SsrContextV,
    options: TransformOptions,
    vocabulary: Vocabulary,
)
    ensures
        ({
            let begun = new_result(element.span).with_static("<"@ + element.tag@);
            let opened = opened_v(*element, top_level, ctx, options, vocabulary);
            &&& writes_more(begun, opened.0)
            &&& opened.0.parts.len() >= 2
            &&& asks_more(ctx, opened.1)
        }),
{
    let attrs = element.attrs@;
    let is_svg = vocabulary.is_svg(element.tag@);
    assert forall|r: SsrResultV, c: SsrContextV| ({
        let done = #[trigger] attributes_v(attrs, is_svg, r, c, options, vocabulary);
        writes_more(r, done.0) && asks_more(c, done.1)
    }) by {
        attributes_add(attrs, is_svg, r, c, options, vocabulary);
    }
    reveal(writes_more);
}

/// An element only asks for more.
pub proof fn element_asks_more(
    element: &JsxElement,
    top_level: bool,
    ctx: SsrContextV,
    options: TransformOptions,
    vocabulary: Vocabulary,
)
    ensures
        asks_more(ctx, element_v(*element, top_level, ctx, options, vocabulary).1),
    decreases element, 1nat,
{
    let tag = element.tag@;
    spread_asks_more(element, top_level, ctx, options, vocabulary);
    opening_adds(element, top_level, ctx, options, vocabulary);
    let opened = opened_v(*element, top_level, ctx, options, vocabulary);
    content_adds(element.attrs@, 0, opened.0, opened.1, options);
    children_add(
        element.children@,
        element.children@.len(),
        opened.0,
        tag == "script"@ || tag == "style"@,
        opened.1,
        options,
        vocabulary,
    );
}

proof fn spread_asks_more(
    element: &JsxElement,
    top_level: bool,
    ctx: SsrContextV,
    options: TransformOptions,
    vocabulary: Vocabulary,
)
    ensures
        asks_more(ctx, spread_element_v(*element, top_level, ctx, options, vocabulary).1),
    decreases element, 0nat,
{
    reveal(props_v);
    let tag = element.tag@;
    let children = element.children@;
    let props = props_v(
        element.attrs@,
        children.len() > 0,
        vocabulary.is_svg(tag),
        ctx.with_helper("ssrElement"@).with_helper("escape"@),
        options,
        vocabulary,
    );
    nodes_ask_more(
        children,
        children.len(),
        tag == "script"@ || tag == "style"@,
        props.1,
        options,
        vocabulary,
    );
}

/// Children only add.
pub proof fn children_add(
    children: Seq<JsxChild>,
    n: nat,
    result: SsrResultV,
    skip_escape: bool,
    ctx: SsrContextV,
    options: TransformOptions,
    vocabulary: Vocabulary,
)
    ensures
        ({
            let done = children_v(children, n, result, skip_escape, ctx, options, vocabulary);
            writes_more(result, done.0) && asks_more(ctx, done.1)
        }),
    decreases children, n,
{
    broadcast use escaping_asks_more;

    if 0 < n <= children.len() {
        let last = (n - 1) as nat;
        children_add(children, last, result, skip_escape, ctx, options, vocabulary);
        let before = children_v(children, last, result, skip_escape, ctx, options, vocabulary);
        match &children[n - 1] {
            JsxChild::Element(element) => {
                element_asks_more(&**element, false, before.1, options, vocabulary);
            },
            JsxChild::Fragment(fragment) => {
                let inner = fragment.children@;
                children_add(
                    inner,
                    inner.len(),
                    before.0,
                    skip_escape,
                    before.1,
                    options,
                    vocabulary,
                );
            },
            _ => {},
        }
    }
}

proof fn nodes_ask_more(
    children: Seq<JsxChild>,
    n: nat,
    skip_escape: bool,
    ctx: SsrContextV,
    options: TransformOptions,
    vocabulary: Vocabulary,
)
    ensures
        asks_more(ctx, nodes_v(children, n, skip_escape, ctx, options, vocabulary).1),
    decreases children, n,
{
    broadcast use escaping_asks_more;

    if 0 < n <= children.len() {
        let last = (n - 1) as nat;
        nodes_ask_more(children, last, skip_escape, ctx, options, vocabulary);
        let before = nodes_v(children, last, skip_escape, ctx, options, vocabulary).1;
        match &children[n - 1] {
            JsxChild::Element(element) => {
                element_asks_more(&**element, false, before, options, vocabulary);
            },
            JsxChild::Fragment(fragment) => {
                let inner = fragment.children@;
                children_add(
                    inner,
                    inner.len(),
                    new_result(fragment.span),
                    skip_escape,
                    before,
                    options,
                    vocabulary,
                );
            },
            _ => {},
        }
    }
}

// ---------------------------------------------------------------------------
// Laws
// ---------------------------------------------------------------------------

/// An element without a spread is text and values from its opening to its
/// closing tag: it begins with `<` and its tag, and ends with its closing tag,
/// or with `>` where it has none.
pub proof fn element_is_enclosed(
    element: &JsxElement,
    top_level: bool,
    ctx: SsrContextV,
    options: TransformOptions,
    vocabulary: Vocabulary,
)
    requires
        !has_spread(element.attrs@),
    ensures
        ({
            let tag = element.tag@;
            let result = element_v(*element, top_level, ctx, options, vocabulary).0;
            &&& result.exprs.len() == 0
            &&& result.parts.len() >= 2
            &&& result.parts.first() == PartV::Static("<"@ + tag)
            &&& result.parts.last() == PartV::Static(
                if vocabulary.is_void(tag) {
                    ">"@
                } else {
                    "</"@ + tag + ">"@
                },
            )
        }),
{
    let tag = element.tag@;
    let begun = new_result(element.span).with_static("<"@ + tag);
    opening_adds(element, top_level, ctx, options, vocabulary);
    let opened = opened_v(*element, top_level, ctx, options, vocabulary);
    content_adds(element.attrs@, 0, opened.0, opened.1, options);
    let raw = tag == "script"@ || tag == "style"@;
    let children = element.children@;
    children_add(children, children.len(), opened.0, raw, opened.1, options, vocabulary);
    let filled = match given_content_v(element.attrs@, 0, opened.0, opened.1, options) {
        Some(pair) => pair,
        None => children_v(
            children,
            children.len(),
            opened.0,
            raw,
            opened.1,
            options,
            vocabulary,
        ),
    };
    assert(writes_more(begun, filled.0));
    reveal(writes_more);
    assert(begun.parts[0] == filled.0.parts[0]);
    assert(begun.parts[0] == opened.0.parts[0]);
}

/// A request keeps its number: whatever an expression in the result so far
/// stands for, it still does behind another element.
pub proof fn requests_keep_their_numbers(
    element: &JsxElement,
    top_level: bool,
    ctx: SsrContextV,
    options: TransformOptions,
    vocabulary: Vocabulary,
    slot: int,
)
    requires
        0 <= slot < ctx.requests.len(),
    ensures
        ({
            let after = element_v(*element, top_level, ctx, options, vocabulary).1;
            slot < after.requests.len() && after.requests[slot] == ctx.requests[slot]
        }),
{
    element_asks_more(element, top_level, ctx, options, vocabulary);
    reveal(asks_more);
}

} // verus!
