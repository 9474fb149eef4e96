//! Nodes of a JSX tree: elements, fragments, texts and expressions.

use crate::arrange::{arrange_children, arranged_v};
use crate::ast::{
    expr_values, no_span, nowhere, Expr, ExprV, JsxChild, JsxElement, JsxFragment, JsxText,
    Pattern, PatternV, Span,
};
use crate::attributes::{memo_wrapper_enabled, wraps_memos};
use crate::copy::copied_exprs;
use crate::element::{element_v, is_placeable, transform_element};
use crate::info::{InfoV, TransformInfo};
use crate::ir::{
    empty_result, form_v, helper_ident_expr, helper_v, result_value, result_values, BlockContext,
    ContextV, OutputKind, ResultV, TransformResult, Wanted,
};
use crate::make::{array, array_v, call1, call_v, copied, str_v, string, thunk, thunk_v};
use crate::marker::static_marker;
use crate::merge::{parts, results_at, results_none, results_push, results_remove_first};
use crate::options::TransformOptions;
use crate::outside::share;
use crate::peel::{callee_of_plain_call, plain_call};
use crate::universal::{
    attributes_v as universal_attributes_v, build_child_result_from_expression, expr_node_v,
    opt_result, text_node, text_node_v, transform_attributes as transform_universal_attributes,
};
use crate::vocabulary::Vocabulary;
use std::rc::Rc;
use vstd::prelude::*;

verus! {

// ---------------------------------------------------------------------------
// Leaves
// ---------------------------------------------------------------------------

/// A text; below a component or a fragment with its entities decoded.
pub open spec fn text_v(text: JsxText, info: InfoV) -> Option<ResultV> {
    if text.content@.len() == 0 {
        None
    } else {
        Some(
            ResultV {
                span: text.span,
                template: if info.component_child || info.fragment_child {
                    text.decoded@
                } else {
                    text.content@
                },
                text: true,
                ..empty_result()
            },
        )
    }
}

/// Transforms a text.
pub fn transform_text(text: &JsxText, info: &TransformInfo) -> (result: Option<TransformResult>)
    ensures
        opt_result(result) == text_v(*text, info@),
{
    if text.content.as_str().unicode_len() == 0 {
        return None;
    }
    let template = if info.component_child || info.fragment_child {
        text.decoded.clone()
    } else {
        text.content.clone()
    };
    Some(TransformResult::of_text(text.span, template, None))
}

/// The expression in braces: one that changes is handed on as a function.
pub open spec fn contained_v(expr: Expr, info: InfoV, options: TransformOptions) -> ExprV {
    if !expr.facts.dynamic {
        expr@
    } else if !info.component_child && plain_call(expr) is Some {
        (plain_call(expr)->0)@
    } else if options.wrap_conditionals && wraps_memos(options) && expr.facts.condition is Some {
        thunk_v(no_span(), form_v((expr.facts.condition->0).inline, expr))
    } else {
        thunk_v(no_span(), expr@)
    }
}

/// The context behind an expression in braces.
pub open spec fn containing_v(
    expr: Expr,
    info: InfoV,
    options: TransformOptions,
    ctx: ContextV,
) -> ContextV {
    if expr.facts.dynamic && (info.component_child || plain_call(expr) is None)
        && options.wrap_conditionals && wraps_memos(options) && expr.facts.condition is Some {
        ctx.lowering((expr.facts.condition->0).inline, Wanted::Inline, expr.span)
    } else {
        ctx
    }
}

/// Transforms an expression in braces.
pub fn transform_expression_container(
    span: Span,
    expr: &Rc<Expr>,
    info: &TransformInfo,
    context: &mut BlockContext,
    options: &TransformOptions,
) -> (result: TransformResult)
    ensures
        result@ == (ResultV {
            span,
            exprs: seq![contained_v(**expr, info@, *options)],
            ..empty_result()
        }),
        final(context)@ == containing_v(**expr, info@, *options, old(context)@),
{
    if !expr.facts.dynamic {
        return TransformResult::of_expr(span, share(expr));
    }
    if !info.component_child {
        if let Some(callee) = callee_of_plain_call(expr) {
            return TransformResult::of_expr(span, callee);
        }
    }
    let mut value = share(expr);
    if options.wrap_conditionals && memo_wrapper_enabled(options) {
        if let Some(condition) = &expr.facts.condition {
            value = context.lower(&condition.inline, Wanted::Inline, expr);
        }
    }
    TransformResult::of_expr(span, thunk(nowhere(), value))
}

/// A spread child.
pub open spec fn spread_v(expr: Expr) -> ExprV {
    if !expr.facts.dynamic {
        expr@
    } else {
        match plain_call(expr) {
            Some(callee) => callee@,
            None => thunk_v(no_span(), expr@),
        }
    }
}

fn transform_spread(span: Span, expr: &Rc<Expr>) -> (result: TransformResult)
    ensures
        result@ == (ResultV { span, exprs: seq![spread_v(**expr)], ..empty_result() }),
{
    let value = if !expr.facts.dynamic {
        share(expr)
    } else {
        match callee_of_plain_call(expr) {
            Some(callee) => callee,
            None => thunk(nowhere(), share(expr)),
        }
    };
    TransformResult::of_expr(span, value)
}

/// A component.
pub open spec fn component_v(element: JsxElement) -> ResultV {
    match element.component {
        None => ResultV { span: element.span, ..empty_result() },
        Some(output) => ResultV {
            span: element.span,
            exprs: expr_values(output.exprs@),
            has_hydratable_event: output.has_hydratable_event,
            ..empty_result()
        },
    }
}

fn component(element: &JsxElement) -> (result: TransformResult)
    ensures
        result@ == component_v(*element),
{
    let mut result = TransformResult::default();
    proof {
        reveal(result_value);
    }
    result.span = element.span;
    if let Some(output) = &element.component {
        result.exprs = copied_exprs(&output.exprs);
        result.has_hydratable_event = output.has_hydratable_event;
    }
    result
}

// ---------------------------------------------------------------------------
// Nodes
// ---------------------------------------------------------------------------

/// The element of the universal renderer, made: `var elem = createElement("tag")`.
pub open spec fn created_v(element: JsxElement, elem: Seq<char>) -> ResultV {
    ResultV {
        span: element.span,
        tag_name: Some(element.tag@),
        output_kind: OutputKind::Universal,
        id: Some(elem),
        ..empty_result()
    }.with_declaration(
        PatternV::Ident(elem),
        call_v(
            no_span(),
            helper_v(no_span(), "createElement"@),
            seq![str_v(no_span(), element.tag@)],
        ),
    )
}

fn create(element: &JsxElement, elem: &str) -> (result: TransformResult)
    ensures
        result@ == created_v(*element, elem@),
{
    let mut result = TransformResult::of_element(
        element.span,
        element.tag.as_str(),
        false,
        false,
        false,
        false,
    );
    result.set_id(copied(elem));
    proof {
        reveal(result_value);
    }
    result.output_kind = OutputKind::Universal;
    let init = call1(
        nowhere(),
        helper_ident_expr(nowhere(), "createElement"),
        string(nowhere(), element.tag.as_str()),
    );
    result.push_declaration(Pattern::Ident(copied(elem)), init);
    result
}

/// What the children of a fragment are told: each stands for itself.
pub open spec fn fragment_info_v(info: InfoV) -> InfoV {
    InfoV {
        top_level: true,
        last_element: true,
        fragment_child: true,
        forced_id: None,
        ..info
    }
}

/// A child of a fragment changes.
pub open spec fn is_changing(child: JsxChild) -> bool {
    match child {
        JsxChild::Container { span, expr: Some(expr) } => expr.facts.dynamic,
        JsxChild::Spread { span, expr } => expr.facts.dynamic,
        _ => false,
    }
}

/// An expression that changes gets a memo.
pub open spec fn memo_v(child: ResultV, changing: bool, options: TransformOptions) -> ResultV {
    if wraps_memos(options) && changing && child.template.len() == 0 && child.exprs.len() > 0 {
        ResultV { needs_memo: true, ..child }
    } else {
        child
    }
}

/// The templates of texts, one behind the other.
pub open spec fn texts_v(children: Seq<ResultV>) -> Seq<char>
    decreases children.len(),
{
    if children.len() == 0 {
        seq![]
    } else {
        texts_v(children.drop_last()) + children.last().template
    }
}

pub open spec fn all_text(children: Seq<ResultV>) -> bool {
    forall|i: int| 0 <= i < children.len() ==> (#[trigger] children[i]).text
}

pub open spec fn any_event(children: Seq<ResultV>) -> bool {
    exists|i: int| 0 <= i < children.len() && (#[trigger] children[i]).has_hydratable_event
}

/// A fragment of transformed children.  The children, and which of them
/// change, come in their order.
#[verifier::opaque]
pub open spec fn collected_v(
    fragment: JsxFragment,
    children: Seq<ResultV>,
    changing: Seq<bool>,
    options: TransformOptions,
) -> ResultV {
    let base = ResultV { span: fragment.span, ..empty_result() };
    if children.len() == 0 {
        base.with_expr(array_v(no_span(), seq![]))
    } else if children.len() == 1 {
        memo_v(children[0], changing[0], options)
    } else if all_text(children) {
        ResultV {
            text: true,
            template: texts_v(children),
            has_hydratable_event: any_event(children),
            ..base
        }
    } else {
        ResultV {
            child_results: Seq::new(
                children.len(),
                |i: int| memo_v(children[i], changing[i], options),
            ),
            has_hydratable_event: any_event(children),
            universal_output: match fragment.lowered {
                None => None,
                Some(expr) => Some(expr@),
            },
            ..base
        }
    }
}

/// A node: nothing for a text or braces that hold nothing.
pub open spec fn node_v(
    child: JsxChild,
    info: InfoV,
    ctx: ContextV,
    options: TransformOptions,
    vocabulary: Vocabulary,
) -> (Option<ResultV>, ContextV)
    decreases child, 0nat,
{
    match child {
        JsxChild::Text(text) => (text_v(text, info), ctx),
        JsxChild::Container { span, expr } => match expr {
            None => (None, ctx),
            Some(expr) => (
                Some(
                    ResultV {
                        span,
                        exprs: seq![contained_v(*expr, info, options)],
                        ..empty_result()
                    },
                ),
                containing_v(*expr, info, options, ctx),
            ),
        },
        JsxChild::Spread { span, expr } => (
            Some(ResultV { span, exprs: seq![spread_v(*expr)], ..empty_result() }),
            ctx,
        ),
        JsxChild::Fragment(fragment) => {
            let done = fragment_v(*fragment, info, ctx, options, vocabulary);
            (Some(done.0), done.1)
        },
        JsxChild::Element(element) => {
            let done = jsx_element_v(*element, info, ctx, options, vocabulary);
            (Some(done.0), done.1)
        },
    }
}

/// An element: a component, or one of the renderer that its tag belongs to.
pub open spec fn jsx_element_v(
    element: JsxElement,
    info: InfoV,
    ctx: ContextV,
    options: TransformOptions,
    vocabulary: Vocabulary,
) -> (ResultV, ContextV)
    decreases element, 0nat,
{
    if element.is_component {
        (component_v(element), ctx.reaching(element))
    } else if options.universal_renders(element.tag@) {
        let fresh = ctx.uid("el$"@);
        let elem = fresh.1;
        let set = universal_attributes_v(
            element.attrs@,
            element.children@.len() > 0,
            element.tag@,
            elem,
            created_v(element, elem),
            fresh.0.register("createElement"@),
            options,
        );
        let (nodes, ctx) = gathered_v(
            element.children@,
            element.children@.len(),
            info,
            set.ctx,
            options,
            vocabulary,
        );
        let all = match set.given {
            Some(node) => nodes.push(node),
            None => nodes,
        };
        arranged_v(all, elem, set.result, ctx)
    } else {
        element_v(element, info, ctx, options, vocabulary)
    }
}

/// The first `n` children of an element of the universal renderer.
pub open spec fn gathered_v(
    children: Seq<JsxChild>,
    n: nat,
    info: InfoV,
    ctx: ContextV,
    options: TransformOptions,
    vocabulary: Vocabulary,
) -> (Seq<ResultV>, ContextV)
    decreases children, n,
{
    if n == 0 || n > children.len() {
        (seq![], ctx)
    } else {
        let before = gathered_v(children, (n - 1) as nat, info, ctx, options, vocabulary);
        let marker = options.static_marker@;
        let (node, ctx) = match children[n - 1] {
            JsxChild::Text(text) => if text.content@.len() == 0 {
                (None, before.1)
            } else {
                let node = text_node_v(text.span, text.content@, before.1);
                (Some(node.0), node.1)
            },
            JsxChild::Container { span, expr } => match expr {
                None => (None, before.1),
                Some(expr) => {
                    let marked = static_marker(before.1.source, span, marker);
                    let node = expr_node_v(*expr, span, marked, before.1, options);
                    (Some(node.0), node.1)
                },
            },
            JsxChild::Spread { span, expr } => {
                let marked = static_marker(before.1.source, span, marker);
                let node = expr_node_v(*expr, span, marked, before.1, options);
                (Some(node.0), node.1)
            },
            JsxChild::Fragment(fragment) => {
                let done = fragment_v(*fragment, info, before.1, options, vocabulary);
                (Some(done.0), done.1)
            },
            JsxChild::Element(element) => {
                let done = jsx_element_v(*element, info, before.1, options, vocabulary);
                (Some(done.0), done.1)
            },
        };
        match node {
            Some(node) => (before.0.push(node), ctx),
            None => (before.0, ctx),
        }
    }
}

/// The first `n` children of a fragment, and which of them change.
pub open spec fn nodes_v(
    children: Seq<JsxChild>,
    n: nat,
    info: InfoV,
    ctx: ContextV,
    options: TransformOptions,
    vocabulary: Vocabulary,
) -> (Seq<ResultV>, Seq<bool>, ContextV)
    decreases children, n,
{
    if n == 0 || n > children.len() {
        (seq![], seq![], ctx)
    } else {
        let before = nodes_v(children, (n - 1) as nat, info, ctx, options, vocabulary);
        let (node, ctx) = node_v(children[n - 1], info, before.2, options, vocabulary);
        match node {
            Some(node) => (
                before.0.push(node),
                before.1.push(is_changing(children[n - 1])),
                ctx,
            ),
            None => (before.0, before.1, ctx),
        }
    }
}

/// A fragment.
pub open spec fn fragment_v(
    fragment: JsxFragment,
    info: InfoV,
    ctx: ContextV,
    options: TransformOptions,
    vocabulary: Vocabulary,
) -> (ResultV, ContextV)
    decreases fragment, 0nat,
{
    let done = nodes_v(
        fragment.children@,
        fragment.children@.len(),
        fragment_info_v(info),
        ctx,
        options,
        vocabulary,
    );
    (collected_v(fragment, done.0, done.1, options), done.2)
}

/// An element, and all that is transformed with it, can be transformed.
pub open spec fn is_transformable(
    child: JsxChild,
    top_level: bool,
    skip_id: bool,
    options: TransformOptions,
    vocabulary: Vocabulary,
) -> bool
    decreases child,
{
    match child {
        JsxChild::Element(element) => if element.is_component {
            true
        } else if options.universal_renders(element.tag@) {
            forall|i: int|
                0 <= i < element.children@.len() ==> is_transformable(
                    #[trigger] element.children@[i],
                    top_level,
                    skip_id,
                    options,
                    vocabulary,
                )
        } else {
            is_placeable(*element, top_level, skip_id, options, vocabulary)
        },
        JsxChild::Fragment(fragment) => forall|i: int|
            0 <= i < fragment.children@.len() ==> is_transformable(
                #[trigger] fragment.children@[i],
                true,
                skip_id,
                options,
                vocabulary,
            ),
        _ => true,
    }
}

/// An expression that changes gets a memo.
fn with_memo(child: TransformResult, changing: bool, options: &TransformOptions) -> (result:
    TransformResult)
    ensures
        result@ == memo_v(child@, changing, *options),
{
    let mut child = child;
    proof {
        parts(child);
    }
    if memo_wrapper_enabled(options) && changing && child.template.as_str().unicode_len() == 0
        && child.exprs.len() > 0 {
        proof {
            reveal(result_value);
        }
        child.needs_memo = true;
    }
    child
}

fn every_text(children: &Vec<TransformResult>) -> (yes: bool)
    ensures
        yes == all_text(result_values(children@)),
{
    let ghost all = result_values(children@);
    let mut i: usize = 0;
    while i < children.len()
        invariant
            i <= children.len(),
            all == result_values(children@),
            all.len() == children@.len(),
            forall|k: int| 0 <= k < i ==> (#[trigger] all[k]).text,
        decreases children.len() - i,
    {
        proof {
            results_at(children@, i as int);
            parts(children@[i as int]);
        }
        if !children[i].text {
            proof {
                assert(!all[i as int].text);
            }
            return false;
        }
        i = i + 1;
    }
    true
}

fn some_event(children: &Vec<TransformResult>) -> (yes: bool)
    ensures
        yes == any_event(result_values(children@)),
{
    let ghost all = result_values(children@);
    let mut i: usize = 0;
    while i < children.len()
        invariant
            i <= children.len(),
            all == result_values(children@),
            all.len() == children@.len(),
            forall|k: int| 0 <= k < i ==> !(#[trigger] all[k]).has_hydratable_event,
        decreases children.len() - i,
    {
        proof {
            results_at(children@, i as int);
        }
        if children[i].hydratable_event() {
            proof {
                assert(all[i as int].has_hydratable_event);
            }
            return true;
        }
        i = i + 1;
    }
    false
}

fn joined_texts(children: &Vec<TransformResult>) -> (text: String)
    ensures
        text@ == texts_v(result_values(children@)),
{
    let ghost all = result_values(children@);
    let mut text = String::new();
    let mut i: usize = 0;
    proof {
        assert(all.take(0) =~= seq![]);
        assert(text@ =~= seq![]);
    }
    while i < children.len()
        invariant
            i <= children.len(),
            all == result_values(children@),
            all.len() == children@.len(),
            text@ == texts_v(all.take(i as int)),
        decreases children.len() - i,
    {
        proof {
            results_at(children@, i as int);
            parts(children@[i as int]);
            assert(all.take(i + 1).drop_last() =~= all.take(i as int));
            assert(all.take(i + 1).last() == children@[i as int]@);
        }
        text.append(children[i].template.as_str());
        i = i + 1;
    }
    proof {
        assert(all.take(all.len() as int) =~= all);
    }
    text
}

fn with_memos(
    children: Vec<TransformResult>,
    changing: &Vec<bool>,
    options: &TransformOptions,
) -> (results: Vec<TransformResult>)
    requires
        changing.len() == children.len(),
    ensures
        result_values(results@) == Seq::new(
            children@.len(),
            |i: int| memo_v(result_values(children@)[i], changing@[i], *options),
        ),
{
    let ghost all = result_values(children@);
    let ghost n = children@.len();
    let ghost want = Seq::new(n, |i: int| memo_v(all[i], changing@[i], *options));
    let mut rest = children;
    let mut results: Vec<TransformResult> = Vec::new();
    let mut i: usize = 0;
    proof {
        results_none(results@);
        assert(all.skip(0) =~= all);
        assert(want.take(0) =~= seq![]);
    }
    while rest.len() > 0
        invariant
            i + rest@.len() == n,
            n == changing.len(),
            want == Seq::new(n, |i: int| memo_v(all[i], changing@[i], *options)),
            result_values(rest@) == all.skip(i as int),
            all.len() == n,
            result_values(results@) == want.take(i as int),
        decreases rest.len(),
    {
        proof {
            results_remove_first(rest@);
            assert(all.skip(i as int).skip(1) =~= all.skip(i + 1));
            assert(all.skip(i as int)[0] == all[i as int]);
        }
        let child = rest.remove(0);
        let done = with_memo(child, changing[i], options);
        proof {
            results_push(results@, done);
            assert(want.take(i + 1) =~= want.take(i as int).push(want[i as int]));
        }
        results.push(done);
        i = i + 1;
    }
    proof {
        assert(want.take(n as int) =~= want);
    }
    results
}

/// A fragment of transformed children.
fn collect_fragment(
    fragment: &JsxFragment,
    children: Vec<TransformResult>,
    changing: Vec<bool>,
    options: &TransformOptions,
) -> (result: TransformResult)
    requires
        changing.len() == children.len(),
    ensures
        result@ == collected_v(*fragment, result_values(children@), changing@, *options),
{
    proof {
        reveal(collected_v);
    }
    if children.len() == 0 {
        proof {
            results_none(children@);
        }
        let mut result = TransformResult::default();
        proof {
            reveal(result_value);
        }
        result.span = fragment.span;
        let none: Vec<Rc<Expr>> = Vec::new();
        proof {
            assert(expr_values(none@) =~= seq![]);
        }
        result.push_expr(array(nowhere(), none));
        return result;
    }
    proof {
        results_at(children@, 0);
    }
    if children.len() == 1 {
        let mut children = children;
        let child = children.remove(0);
        return with_memo(child, changing[0], options);
    }
    let event = some_event(&children);
    if every_text(&children) {
        let mut result = TransformResult::of_text(fragment.span, joined_texts(&children), None);
        result.note_hydratable_event(event);
        return result;
    }
    let mut result = TransformResult::default();
    result.note_hydratable_event(event);
    let results = with_memos(children, &changing, options);
    proof {
        reveal(result_value);
    }
    result.span = fragment.span;
    result.child_results = results;
    if let Some(expr) = &fragment.lowered {
        result.universal_output = Some(share(expr));
    }
    result
}

/// Transforms a node.
pub fn transform_node(
    child: &JsxChild,
    info: &TransformInfo,
    context: &mut BlockContext,
    options: &TransformOptions,
    vocabulary: &Vocabulary,
) -> (result: Option<TransformResult>)
    requires
        is_transformable(*child, info@.top_level, info@.skip_id, *options, *vocabulary),
    ensures
        (opt_result(result), final(context)@) == node_v(
            *child,
            info@,
            old(context)@,
            *options,
            *vocabulary,
        ),
    decreases child, 0nat,
{
    proof {
        reveal_with_fuel(is_transformable, 2);
    }
    match child {
        JsxChild::Text(text) => transform_text(text, info),
        JsxChild::Container { span, expr } => match expr {
            None => None,
            Some(expr) => Some(transform_expression_container(*span, expr, info, context, options)),
        },
        JsxChild::Spread { span, expr } => Some(transform_spread(*span, expr)),
        JsxChild::Fragment(fragment) => Some(
            transform_fragment(fragment, info, context, options, vocabulary),
        ),
        JsxChild::Element(element) => Some(
            transform_jsx_element(element, info, context, options, vocabulary),
        ),
    }
}

/// Transforms an element.
pub fn transform_jsx_element(
    element: &JsxElement,
    info: &TransformInfo,
    context: &mut BlockContext,
    options: &TransformOptions,
    vocabulary: &Vocabulary,
) -> (result: TransformResult)
    requires
        !element.is_component && !options.universal_renders(element.tag@) ==> is_placeable(
            *element,
            info@.top_level,
            info@.skip_id,
            *options,
            *vocabulary,
        ),
        !element.is_component && options.universal_renders(element.tag@) ==> forall|i: int|
            0 <= i < element.children@.len() ==> is_transformable(
                #[trigger] element.children@[i],
                info@.top_level,
                info@.skip_id,
                *options,
                *vocabulary,
            ),
    ensures
        (result@, final(context)@) == jsx_element_v(
            *element,
            info@,
            old(context)@,
            *options,
            *vocabulary,
        ),
    decreases element, 0nat,
{
    if element.is_component {
        context.reach(element);
        return component(element);
    }
    let tag = element.tag.as_str();
    if !options.should_use_universal_for_intrinsic(tag) {
        return transform_element(element, info, context, options, vocabulary);
    }
    let elem = context.generate_uid("el$");
    let mut result = create(element, elem.as_str());
    context.register_helper("createElement");
    let given = transform_universal_attributes(
        &element.attrs,
        element.children.len() > 0,
        tag,
        elem.as_str(),
        &mut result,
        context,
        options,
    );
    let mut nodes = transform_children(&element.children, info, context, options, vocabulary);
    if let Some(node) = given {
        proof {
            results_push(nodes@, node);
        }
        nodes.push(node);
    }
    arrange_children(nodes, elem.as_str(), &mut result, context);
    result
}

/// The children of an element of the universal renderer.
fn transform_children(
    children: &Vec<JsxChild>,
    info: &TransformInfo,
    context: &mut BlockContext,
    options: &TransformOptions,
    vocabulary: &Vocabulary,
) -> (nodes: Vec<TransformResult>)
    requires
        forall|i: int|
            0 <= i < children@.len() ==> is_transformable(
                #[trigger] children@[i],
                info@.top_level,
                info@.skip_id,
                *options,
                *vocabulary,
            ),
    ensures
        (result_values(nodes@), final(context)@) == gathered_v(
            children@,
            children@.len(),
            info@,
            old(context)@,
            *options,
            *vocabulary,
        ),
    decreases children, children.len(),
{
    let mut nodes: Vec<TransformResult> = Vec::new();
    let mut i: usize = 0;
    proof {
        results_none(nodes@);
    }
    while i < children.len()
        invariant
            i <= children.len(),
            forall|i: int|
                0 <= i < children@.len() ==> is_transformable(
                    #[trigger] children@[i],
                    info@.top_level,
                    info@.skip_id,
                    *options,
                    *vocabulary,
                ),
            (result_values(nodes@), context@) == gathered_v(
                children@,
                i as nat,
                info@,
                old(context)@,
                *options,
                *vocabulary,
            ),
        decreases children.len() - i,
    {
        proof {
            assert(is_transformable(
                children@[i as int],
                info@.top_level,
                info@.skip_id,
                *options,
                *vocabulary,
            ));
        }
        let node = match &children[i] {
            JsxChild::Text(text) => {
                if text.content.as_str().unicode_len() == 0 {
                    None
                } else {
                    Some(text_node(text.span, text.content.clone(), context))
                }
            },
            JsxChild::Container { span, expr } => match expr {
                None => None,
                Some(expr) => {
                    let marked = context.has_static_marker_comment(*span, options.static_marker);
                    Some(build_child_result_from_expression(expr, *span, context, options, marked))
                },
            },
            JsxChild::Spread { span, expr } => {
                let marked = context.has_static_marker_comment(*span, options.static_marker);
                Some(build_child_result_from_expression(expr, *span, context, options, marked))
            },
            _ => transform_node(&children[i], info, context, options, vocabulary),
        };
        if let Some(node) = node {
            proof {
                results_push(nodes@, node);
            }
            nodes.push(node);
        }
        i = i + 1;
    }
    nodes
}

fn changes(child: &JsxChild) -> (yes: bool)
    ensures
        yes == is_changing(*child),
{
    match child {
        JsxChild::Container { expr: Some(expr), .. } => expr.facts.dynamic,
        JsxChild::Spread { expr, .. } => expr.facts.dynamic,
        _ => false,
    }
}

/// Transforms a fragment.
pub fn transform_fragment(
    fragment: &JsxFragment,
    info: &TransformInfo,
    context: &mut BlockContext,
    options: &TransformOptions,
    vocabulary: &Vocabulary,
) -> (result: TransformResult)
    requires
        forall|i: int|
            0 <= i < fragment.children@.len() ==> is_transformable(
                #[trigger] fragment.children@[i],
                true,
                info@.skip_id,
                *options,
                *vocabulary,
            ),
    ensures
        (result@, final(context)@) == fragment_v(
            *fragment,
            info@,
            old(context)@,
            *options,
            *vocabulary,
        ),
    decreases fragment, 0nat,
{
    let mut told = info.duplicate();
    told.top_level = true;
    told.last_element = true;
    told.fragment_child = true;
    told.forced_id = None;
    let (nodes, changing) = transform_nodes(
        &fragment.children,
        &told,
        context,
        options,
        vocabulary,
    );
    collect_fragment(fragment, nodes, changing, options)
}

/// The children of a fragment, and which of them change.
fn transform_nodes(
    children: &Vec<JsxChild>,
    info: &TransformInfo,
    context: &mut BlockContext,
    options: &TransformOptions,
    vocabulary: &Vocabulary,
) -> (found: (Vec<TransformResult>, Vec<bool>))
    requires
        forall|i: int|
            0 <= i < children@.len() ==> is_transformable(
                #[trigger] children@[i],
                info@.top_level,
                info@.skip_id,
                *options,
                *vocabulary,
            ),
    ensures
        found.0.len() == found.1.len(),
        (result_values(found.0@), found.1@, final(context)@) == nodes_v(
            children@,
            children@.len(),
            info@,
            old(context)@,
            *options,
            *vocabulary,
        ),
    decreases children, children.len(),
{
    let mut nodes: Vec<TransformResult> = Vec::new();
    let mut changing: Vec<bool> = Vec::new();
    let mut i: usize = 0;
    proof {
        results_none(nodes@);
        assert(changing@ =~= seq![]);
    }
    while i < children.len()
        invariant
            i <= children.len(),
            nodes.len() == changing.len(),
            forall|i: int|
                0 <= i < children@.len() ==> is_transformable(
                    #[trigger] children@[i],
                    info@.top_level,
                    info@.skip_id,
                    *options,
                    *vocabulary,
                ),
            (result_values(nodes@), changing@, context@) == nodes_v(
                children@,
                i as nat,
                info@,
                old(context)@,
                *options,
                *vocabulary,
            ),
        decreases children.len() - i,
    {
        let node = transform_node(&children[i], info, context, options, vocabulary);
        if let Some(node) = node {
            proof {
                results_push(nodes@, node);
            }
            nodes.push(node);
            changing.push(changes(&children[i]));
        }
        i = i + 1;
    }
    (nodes, changing)
}

} // verus!
