//! A transform leaves what the file has gathered: helpers, imports, events and
//! templates stay where they are, and none of them comes twice.

use crate::all_attributes::named;
use crate::arrange::{
    arranged_v, child_placed_v, each_placed_v, first_id, merged_v, node_of_v, normals_v, ArrangeV,
};
use crate::ast::{Expr, JsxAttr, JsxAttribute, JsxChild, JsxElement, JsxFragment, Kind};
use crate::entry::{exit_v, root_info, Surrounding};
use crate::growth::{group_growth, grows};
use crate::growth_elements::{element_grows, reached_grows};
use crate::info::InfoV;
use crate::ir::{BindingV, ContextV, ResultV};
use crate::node::{
    created_v, fragment_info_v, fragment_v, gathered_v, jsx_element_v, node_v, nodes_v,
};
use crate::options::TransformOptions;
use crate::output::{output_v, outputs_v, register_bindings, template_of};
use crate::universal::{
    attr_v, attributes_v, directive_v, each_v, given_v, ref_v, set_v, spread_call_v, spreading_v,
    spreads_v, AttrsV,
};
use crate::vocabulary::Vocabulary;
use vstd::prelude::*;

verus! {

broadcast use group_growth;

// ---------------------------------------------------------------------------
// The universal renderer
// ---------------------------------------------------------------------------

proof fn attr_grows(
    attr: JsxAttribute,
    tag: Seq<char>,
    elem: Seq<char>,
    state: AttrsV,
    options: TransformOptions,
)
    ensures
        grows(state.ctx, attr_v(attr, tag, elem, state, options).ctx),
{
    reveal(given_v);
    reveal(directive_v);
    reveal(ref_v);
    reveal(set_v);
}

proof fn each_grows(
    attrs: Seq<JsxAttribute>,
    tag: Seq<char>,
    elem: Seq<char>,
    state: AttrsV,
    options: TransformOptions,
)
    ensures
        grows(state.ctx, each_v(attrs, tag, elem, state, options).ctx),
    decreases attrs.len(),
{
    if attrs.len() > 0 {
        each_grows(attrs.drop_last(), tag, elem, state, options);
        attr_grows(
            attrs.last(),
            tag,
            elem,
            each_v(attrs.drop_last(), tag, elem, state, options),
            options,
        );
    }
}

proof fn spreading_grows(
    attrs: Seq<JsxAttr>,
    source: Seq<char>,
    ctx: ContextV,
    options: TransformOptions,
)
    ensures
        grows(ctx, spreading_v(attrs, source, options, ctx)),
    decreases attrs.len(),
{
    if attrs.len() > 0 {
        spreading_grows(attrs.drop_last(), source, ctx, options);
    }
}

proof fn attributes_grow(
    attrs: Seq<JsxAttr>,
    has_children: bool,
    tag: Seq<char>,
    elem: Seq<char>,
    result: ResultV,
    ctx: ContextV,
    options: TransformOptions,
)
    ensures
        grows(ctx, attributes_v(attrs, has_children, tag, elem, result, ctx, options).ctx),
{
    reveal(attributes_v);
    let call = spread_call_v(attrs, elem, has_children, ctx, options);
    let left = spreads_v(attrs, ctx.source, options).left;
    spreading_grows(attrs, ctx.source, ctx, options);
    each_grows(left, tag, elem, AttrsV { result, ctx: call.0, given: None }, options);
    each_grows(named(attrs), tag, elem, AttrsV { result, ctx, given: None }, options);
}

proof fn normals_grow(children: Seq<ResultV>, ctx: ContextV)
    ensures
        grows(ctx, normals_v(children, ctx).1),
    decreases children.len(),
{
    if children.len() > 0 {
        normals_grow(children.drop_last(), ctx);
    }
}

proof fn each_placed_grows(
    children: Seq<ResultV>,
    multi: bool,
    parent: Seq<char>,
    state: ArrangeV,
)
    ensures
        grows(state.ctx, each_placed_v(children, multi, parent, state).ctx),
    decreases children.len(),
{
    if children.len() > 0 {
        let rest = children.skip(1);
        let marker = if multi {
            first_id(rest)
        } else {
            None
        };
        let next = child_placed_v(children[0], multi, parent, marker, state);
        assert(grows(state.ctx, next.ctx)) by {
            reveal(child_placed_v);
            reveal(node_of_v);
        }
        each_placed_grows(rest, multi, parent, next);
    }
}

proof fn arranged_grows(
    children: Seq<ResultV>,
    parent: Seq<char>,
    result: ResultV,
    ctx: ContextV,
)
    ensures
        grows(ctx, arranged_v(children, parent, result, ctx).1),
{
    reveal(arranged_v);
    let normal = normals_v(children, ctx);
    normals_grow(children, ctx);
    each_placed_grows(
        merged_v(normal.0),
        children.len() > 1,
        parent,
        ArrangeV { result, ctx: normal.1, appends: seq![] },
    );
}

// ---------------------------------------------------------------------------
// Nodes
// ---------------------------------------------------------------------------

proof fn gathered_grows(
    children: Seq<JsxChild>,
    n: nat,
    info: InfoV,
    ctx: ContextV,
    options: TransformOptions,
    vocabulary: Vocabulary,
)
    ensures
        grows(ctx, gathered_v(children, n, info, ctx, options, vocabulary).1),
    decreases children, n,
{
    if 0 < n <= children.len() {
        let last = (n - 1) as nat;
        gathered_grows(children, last, info, ctx, options, vocabulary);
        let before = gathered_v(children, last, info, ctx, options, vocabulary).1;
        match &children[n - 1] {
            JsxChild::Fragment(fragment) => {
                fragment_grows(&**fragment, info, before, options, vocabulary);
            },
            JsxChild::Element(element) => {
                jsx_element_grows(&**element, info, before, options, vocabulary);
            },
            _ => {},
        }
    }
}

/// An element leaves what the file has gathered, whatever renders it.
pub proof fn jsx_element_grows(
    element: &JsxElement,
    info: InfoV,
    ctx: ContextV,
    options: TransformOptions,
    vocabulary: Vocabulary,
)
    ensures
        grows(ctx, jsx_element_v(*element, info, ctx, options, vocabulary).1),
    decreases element, 0nat,
{
    if element.is_component {
        reached_grows(element, ctx);
    } else if options.universal_renders(element.tag@) {
        let fresh = ctx.uid("el$"@);
        let elem = fresh.1;
        let set = attributes_v(
            element.attrs@,
            element.children@.len() > 0,
            element.tag@,
            elem,
            created_v(*element, elem),
            fresh.0.register("createElement"@),
            options,
        );
        attributes_grow(
            element.attrs@,
            element.children@.len() > 0,
            element.tag@,
            elem,
            created_v(*element, elem),
            fresh.0.register("createElement"@),
            options,
        );
        let children = element.children@;
        gathered_grows(children, children.len(), info, set.ctx, options, vocabulary);
        let nodes = gathered_v(children, children.len(), info, set.ctx, options, vocabulary);
        arranged_grows(nodes.0, elem, set.result, nodes.1);
        if let Some(node) = set.given {
            arranged_grows(nodes.0.push(node), elem, set.result, nodes.1);
        }
    } else {
        element_grows(element, info, ctx, options, vocabulary);
    }
}

proof fn node_grows(
    child: &JsxChild,
    info: InfoV,
    ctx: ContextV,
    options: TransformOptions,
    vocabulary: Vocabulary,
)
    ensures
        grows(ctx, node_v(*child, info, ctx, options, vocabulary).1),
    decreases child, 0nat,
{
    match child {
        JsxChild::Fragment(fragment) => {
            fragment_grows(&**fragment, info, ctx, options, vocabulary);
        },
        JsxChild::Element(element) => {
            jsx_element_grows(&**element, info, ctx, options, vocabulary);
        },
        _ => {},
    }
}

proof fn nodes_grow(
    children: Seq<JsxChild>,
    n: nat,
    info: InfoV,
    ctx: ContextV,
    options: TransformOptions,
    vocabulary: Vocabulary,
)
    ensures
        grows(ctx, nodes_v(children, n, info, ctx, options, vocabulary).2),
    decreases children, n,
{
    if 0 < n <= children.len() {
        let last = (n - 1) as nat;
        nodes_grow(children, last, info, ctx, options, vocabulary);
        let before = nodes_v(children, last, info, ctx, options, vocabulary).2;
        node_grows(&children[n - 1], info, before, options, vocabulary);
    }
}

/// A fragment leaves what the file has gathered.
pub proof fn fragment_grows(
    fragment: &JsxFragment,
    info: InfoV,
    ctx: ContextV,
    options: TransformOptions,
    vocabulary: Vocabulary,
)
    ensures
        grows(ctx, fragment_v(*fragment, info, ctx, options, vocabulary).1),
    decreases fragment, 0nat,
{
    nodes_grow(
        fragment.children@,
        fragment.children@.len(),
        fragment_info_v(info),
        ctx,
        options,
        vocabulary,
    );
}

// ---------------------------------------------------------------------------
// Output
// ---------------------------------------------------------------------------

proof fn bindings_grow(ctx: ContextV, bindings: Seq<BindingV>, vocabulary: Vocabulary)
    ensures
        grows(ctx, register_bindings(ctx, bindings, vocabulary)),
    decreases bindings.len(),
{
    if bindings.len() > 0 {
        bindings_grow(ctx, bindings.drop_last(), vocabulary);
    }
}

/// Putting out a result leaves what the file has gathered.
pub proof fn output_grows(ctx: ContextV, result: ResultV, vocabulary: Vocabulary)
    ensures
        grows(ctx, output_v(ctx, result, vocabulary).0),
    decreases result, 0nat,
{
    if result.child_results.len() > 0 {
        outputs_grow(ctx, result.child_results, vocabulary);
    } else {
        let next = if result.skip_template {
            ctx
        } else {
            ctx.add_template(template_of(result)).0
        };
        let next = if next.hydratable {
            next.register("getNextElement"@)
        } else {
            next
        };
        bindings_grow(next.register("effect"@), result.dynamics, vocabulary);
        bindings_grow(next, result.dynamics, vocabulary);
    }
}

proof fn outputs_grow(ctx: ContextV, results: Seq<ResultV>, vocabulary: Vocabulary)
    ensures
        grows(ctx, outputs_v(ctx, results, vocabulary).0),
    decreases results, results.len(),
{
    if results.len() > 0 {
        outputs_grow(ctx, results.drop_last(), vocabulary);
        output_grows(
            outputs_v(ctx, results.drop_last(), vocabulary).0,
            results[results.len() - 1],
            vocabulary,
        );
    }
}

// ---------------------------------------------------------------------------
// Laws
// ---------------------------------------------------------------------------

/// As the walk leaves an expression, all that the file has gathered before
/// stays: every helper, import and event in its place and under its name, and
/// every template under its index.
pub proof fn exit_grows(
    expr: &Expr,
    around: Seq<Surrounding>,
    ctx: ContextV,
    options: TransformOptions,
    vocabulary: Vocabulary,
)
    ensures
        grows(ctx, exit_v(*expr, around, ctx, options, vocabulary).1),
{
    match &expr.kind {
        Kind::JsxElement(element) => {
            let element: &JsxElement = &**element;
            jsx_element_grows(element, root_info(true), ctx, options, vocabulary);
            let made = jsx_element_v(*element, root_info(true), ctx, options, vocabulary);
            output_grows(made.1, made.0, vocabulary);
        },
        Kind::JsxFragment(fragment) => {
            let fragment: &JsxFragment = &**fragment;
            fragment_grows(fragment, root_info(false), ctx, options, vocabulary);
            let made = fragment_v(*fragment, root_info(false), ctx, options, vocabulary);
            output_grows(made.1, made.0, vocabulary);
        },
        _ => {},
    }
}

/// As the walk leaves an expression, nothing that the file has gathered comes
/// to repeat: no helper, no import, no event, and no template of one content
/// and kind.
pub proof fn exit_keeps_well_formed(
    expr: &Expr,
    around: Seq<Surrounding>,
    ctx: ContextV,
    options: TransformOptions,
    vocabulary: Vocabulary,
)
    requires
        ctx.well_formed(),
    ensures
        exit_v(*expr, around, ctx, options, vocabulary).1.well_formed(),
{
    exit_grows(expr, around, ctx, options, vocabulary);
    reveal(grows);
}

} // verus!
