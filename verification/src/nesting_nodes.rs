//! The JSX in what JSX is put out as.

use crate::arrange::{arranged_v, child_placed_v, each_placed_v, first_id, node_of_v, ArrangeV};
use crate::ast::{
    expr_values, no_span, Expr, ExprV, JsxAttribute, JsxChild, JsxElement, JsxFragment, KindV,
    Span, StmtV, VarKind,
};
use crate::entry::{put_out_v, ExitV};
use crate::growth::grows;
use crate::growth_laws::output_grows;
use crate::info::InfoV;
use crate::ir::{BindingV, ContextV, DeclarationV, OutputKind, ResultV};
use crate::make::{ident_v, optional_member_v};
use crate::nesting::{
    declarator_holds, declarators_hold, holds, kind_holds, option_holds, prop_holds, stmt_holds,
};
use crate::nesting_attributes::set_attr_holds;
use crate::nesting_elements::{child_in, children_in, element_holds, element_in, fragment_in};
use crate::nesting_make::{
    all_ok, bindings_ok, body_ok, declarations_ok, expr_in, group_made, ok, prop_ok, props_ok,
    result_ok, stmt_ok, stmts_ok,
};
use crate::node::{
    collected_v, component_v, contained_v, fragment_info_v, fragment_v, jsx_element_v, memo_v,
    node_v, nodes_v, spread_v,
};
use crate::options::TransformOptions;
use crate::output::{
    bound_value, can_output, declarators_v, dynamics_v, effect_source_v, element_call_v,
    is_iife, multi_effect_v, numbered_id, output_v, outputs_v, single_effect_v,
    template_output_v, update_v, value_prop_v,
};
use crate::universal::{attributes_v, directive_v, each_v, ref_v, set_v, AttrsV};
use crate::vocabulary::Vocabulary;
use vstd::prelude::*;

verus! {

broadcast use group_made;

// ---------------------------------------------------------------------------
// The universal renderer
// ---------------------------------------------------------------------------

/// A result that the universal renderer puts out by itself.
pub open spec fn is_apart(result: ResultV) -> bool {
    result.output_kind is Universal && result.universal_output is None
}

proof fn each_apart(
    attrs: Seq<JsxAttribute>,
    tag: Seq<char>,
    elem: Seq<char>,
    state: AttrsV,
    options: TransformOptions,
)
    requires
        is_apart(state.result),
    ensures
        is_apart(each_v(attrs, tag, elem, state, options).result),
    decreases attrs.len(),
{
    if attrs.len() > 0 {
        each_apart(attrs.drop_last(), tag, elem, state, options);
        reveal(directive_v);
        reveal(ref_v);
        reveal(set_v);
    }
}

proof fn each_placed_apart(
    children: Seq<ResultV>,
    multi: bool,
    parent: Seq<char>,
    state: ArrangeV,
)
    requires
        is_apart(state.result),
    ensures
        is_apart(each_placed_v(children, multi, parent, state).result),
    decreases children.len(),
{
    if children.len() > 0 {
        let rest = children.skip(1);
        let marker = if multi {
            first_id(rest)
        } else {
            None
        };
        let next = child_placed_v(children[0], multi, parent, marker, state);
        assert(is_apart(next.result)) by {
            reveal(child_placed_v);
            reveal(node_of_v);
        }
        each_placed_apart(rest, multi, parent, next);
    }
}

proof fn universal_is_apart(
    element: &JsxElement,
    info: InfoV,
    ctx: ContextV,
    options: TransformOptions,
    vocabulary: Vocabulary,
)
    requires
        !element.is_component,
        options.universal_renders(element.tag@),
    ensures
        is_apart(jsx_element_v(*element, info, ctx, options, vocabulary).0),
{
    reveal(attributes_v);
    reveal(arranged_v);
    assert forall|attrs: Seq<JsxAttribute>, elem: Seq<char>, state: AttrsV|
        is_apart(state.result) implies is_apart(
        (#[trigger] each_v(attrs, element.tag@, elem, state, options)).result,
    ) by {
        each_apart(attrs, element.tag@, elem, state, options);
    }
    assert forall|children: Seq<ResultV>, multi: bool, parent: Seq<char>, state: ArrangeV|
        is_apart(state.result) implies is_apart(
        (#[trigger] each_placed_v(children, multi, parent, state)).result,
    ) by {
        each_placed_apart(children, multi, parent, state);
    }
}

// ---------------------------------------------------------------------------
// Results
// ---------------------------------------------------------------------------

/// `p` holds of all JSX in a result, and the universal renderer is asked only
/// where there is one.
pub open spec fn made_ok(
    result: ResultV,
    options: TransformOptions,
    p: spec_fn(KindV) -> bool,
) -> bool {
    &&& result_ok(result, p)
    &&& result.output_kind is Universal ==> options.generate is Universal
        || options.generate is Dynamic
}

proof fn component_holds(element: &JsxElement, p: spec_fn(KindV) -> bool)
    requires
        element.is_component,
        element_in(*element, p),
    ensures
        body_ok(component_v(*element), p),
{
    if let Some(output) = &element.component {
        reveal(all_ok);
        reveal(ok);
        let exprs = expr_values(output.exprs@);
        assert forall|i: int| 0 <= i < exprs.len() implies holds(#[trigger] exprs[i], p) by {
            assert(exprs[i] == output.exprs@[i]@);
        }
        assert(all_ok(exprs, p));
    }
}

/// JSX keeps what holds of all JSX.
pub proof fn jsx_element_holds(
    element: &JsxElement,
    info: InfoV,
    ctx: ContextV,
    options: TransformOptions,
    vocabulary: Vocabulary,
    p: spec_fn(KindV) -> bool,
)
    requires
        element_in(*element, p),
    ensures
        made_ok(jsx_element_v(*element, info, ctx, options, vocabulary).0, options, p),
{
    if element.is_component {
        component_holds(element, p);
    } else if options.universal_renders(element.tag@) {
        universal_is_apart(element, info, ctx, options, vocabulary);
    } else {
        element_holds(element, info, ctx, options, vocabulary, p);
    }
}

proof fn contained_holds(
    expr: &Expr,
    info: InfoV,
    options: TransformOptions,
    p: spec_fn(KindV) -> bool,
)
    requires
        expr_in(*expr, p),
    ensures
        ok(contained_v(*expr, info, options), p),
        ok(spread_v(*expr), p),
{
}

proof fn node_holds(
    child: &JsxChild,
    info: InfoV,
    ctx: ContextV,
    options: TransformOptions,
    vocabulary: Vocabulary,
    p: spec_fn(KindV) -> bool,
)
    requires
        child_in(*child, p),
    ensures
        node_v(*child, info, ctx, options, vocabulary).0 matches Some(result) ==> made_ok(
            result,
            options,
            p,
        ),
    decreases child, 0nat,
{
    match child {
        JsxChild::Text(text) => {},
        JsxChild::Container { span, expr: Some(expr) } => {
            contained_holds(&**expr, info, options, p);
        },
        JsxChild::Container { span, expr: None } => {},
        JsxChild::Spread { span, expr } => {
            contained_holds(&**expr, info, options, p);
        },
        JsxChild::Fragment(fragment) => {
            assert(fragment_in(**fragment, p));
            fragment_holds(&**fragment, info, ctx, options, vocabulary, p);
        },
        JsxChild::Element(element) => {
            assert(element_in(**element, p));
            jsx_element_holds(&**element, info, ctx, options, vocabulary, p);
        },
    }
}

proof fn nodes_hold(
    children: Seq<JsxChild>,
    n: nat,
    info: InfoV,
    ctx: ContextV,
    options: TransformOptions,
    vocabulary: Vocabulary,
    p: spec_fn(KindV) -> bool,
)
    requires
        children_in(children, p),
    ensures
        ({
            let nodes = nodes_v(children, n, info, ctx, options, vocabulary).0;
            forall|i: int| 0 <= i < nodes.len() ==> made_ok(#[trigger] nodes[i], options, p)
        }),
    decreases children, n,
{
    if 0 < n <= children.len() {
        nodes_hold(children, (n - 1) as nat, info, ctx, options, vocabulary, p);
        let before = nodes_v(children, (n - 1) as nat, info, ctx, options, vocabulary);
        assert(child_in(children[n - 1], p));
        node_holds(&children[n - 1], info, before.2, options, vocabulary, p);
    }
}

/// A fragment keeps what holds of all JSX.
pub proof fn fragment_holds(
    fragment: &JsxFragment,
    info: InfoV,
    ctx: ContextV,
    options: TransformOptions,
    vocabulary: Vocabulary,
    p: spec_fn(KindV) -> bool,
)
    requires
        fragment_in(*fragment, p),
    ensures
        made_ok(fragment_v(*fragment, info, ctx, options, vocabulary).0, options, p),
    decreases fragment, 0nat,
{
    let told = fragment_info_v(info);
    let children = fragment.children@;
    nodes_hold(children, children.len(), told, ctx, options, vocabulary, p);
    let nodes = nodes_v(children, children.len(), told, ctx, options, vocabulary);
    collected_holds(fragment, nodes.0, nodes.1, options, p);
}

proof fn memo_holds(
    child: ResultV,
    changing: bool,
    options: TransformOptions,
    p: spec_fn(KindV) -> bool,
)
    requires
        made_ok(child, options, p),
    ensures
        made_ok(memo_v(child, changing, options), options, p),
{
    let made = memo_v(child, changing, options);
    assert(made.child_results == child.child_results);
    assert(result_ok(made, p));
}

proof fn collected_holds(
    fragment: &JsxFragment,
    children: Seq<ResultV>,
    changing: Seq<bool>,
    options: TransformOptions,
    p: spec_fn(KindV) -> bool,
)
    requires
        forall|i: int| 0 <= i < children.len() ==> made_ok(#[trigger] children[i], options, p),
    ensures
        made_ok(collected_v(*fragment, children, changing, options), options, p),
{
    reveal(collected_v);
    let result = collected_v(*fragment, children, changing, options);
    if children.len() == 1 {
        memo_holds(children[0], changing[0], options, p);
    } else {
        assert forall|i: int| 0 <= i < result.child_results.len() implies result_ok(
            #[trigger] result.child_results[i],
            p,
        ) by {
            assert(made_ok(children[i], options, p));
            memo_holds(children[i], changing[i], options, p);
        }
        assert(result_ok(result, p));
    }
}

// ---------------------------------------------------------------------------
// What is put out
// ---------------------------------------------------------------------------

proof fn source_holds(span: Span, expr: ExprV, p: spec_fn(KindV) -> bool)
    requires
        ok(expr, p),
    ensures
        ok(effect_source_v(span, expr), p),
{
    if is_iife(expr.kind) {
        reveal(ok);
        assert(kind_holds(expr.kind, p));
    }
}

proof fn single_effect_holds(
    span: Span,
    binding: BindingV,
    hydratable: bool,
    vocabulary: Vocabulary,
    p: spec_fn(KindV) -> bool,
)
    requires
        ok(binding.value, p),
    ensures
        ok(single_effect_v(span, binding, hydratable, vocabulary), p),
{
    source_holds(span, bound_value(span, binding), p);
    let value = ident_v(span, "_v$"@);
    let prev = ident_v(span, "_$p"@);
    assert(ok(value, p) && ok(prev, p));
    set_attr_holds(span, binding, value, Some(prev), hydratable, vocabulary, p);
    set_attr_holds(span, binding, value, None, hydratable, vocabulary, p);
}

proof fn update_holds(
    span: Span,
    binding: BindingV,
    index: nat,
    hydratable: bool,
    vocabulary: Vocabulary,
    p: spec_fn(KindV) -> bool,
)
    ensures
        stmt_ok(update_v(span, binding, index, hydratable, vocabulary), p),
{
    let current = ident_v(span, numbered_id(index));
    let prev = optional_member_v(span, ident_v(span, "_p$"@), numbered_id(index));
    assert(ok(current, p) && ok(prev, p));
    set_attr_holds(span, binding, current, Some(prev), hydratable, vocabulary, p);
    set_attr_holds(span, binding, current, None, hydratable, vocabulary, p);
}

proof fn multi_effect_holds(
    span: Span,
    bindings: Seq<BindingV>,
    hydratable: bool,
    vocabulary: Vocabulary,
    p: spec_fn(KindV) -> bool,
)
    requires
        bindings_ok(bindings, p),
    ensures
        ok(multi_effect_v(span, bindings, hydratable, vocabulary), p),
{
    let props = Seq::new(bindings.len(), |i: int| value_prop_v(span, bindings[i], i as nat));
    let updates = Seq::new(
        bindings.len(),
        |i: int| update_v(span, bindings[i], i as nat, hydratable, vocabulary),
    );
    assert(props_ok(props, p)) by {
        assert forall|i: int| 0 <= i < props.len() implies prop_holds(#[trigger] props[i], p) by {
            assert(ok(bindings[i].value, p)) by {
                reveal(bindings_ok);
            }
            assert(prop_ok(value_prop_v(span, bindings[i], i as nat), p));
            reveal(prop_ok);
        }
        reveal(props_ok);
    }
    assert(stmts_ok(updates, p)) by {
        assert forall|i: int| 0 <= i < updates.len() implies stmt_holds(
            #[trigger] updates[i],
            p,
        ) by {
            update_holds(span, bindings[i], i as nat, hydratable, vocabulary, p);
            reveal(stmt_ok);
        }
        reveal(stmts_ok);
    }
}

proof fn dynamics_hold(
    ctx: ContextV,
    bindings: Seq<BindingV>,
    vocabulary: Vocabulary,
    p: spec_fn(KindV) -> bool,
)
    requires
        bindings_ok(bindings, p),
    ensures
        stmts_ok(dynamics_v(ctx, bindings, vocabulary).1, p),
{
    if bindings.len() == 0 {
    } else if ctx.effect_wrapper_enabled {
        assert(ok(bindings[0].value, p)) by {
            reveal(bindings_ok);
        }
        single_effect_holds(no_span(), bindings[0], ctx.hydratable, vocabulary, p);
        multi_effect_holds(no_span(), bindings, ctx.hydratable, vocabulary, p);
    } else {
        let stmts = dynamics_v(ctx, bindings, vocabulary).1;
        assert forall|i: int| 0 <= i < stmts.len() implies stmt_holds(#[trigger] stmts[i], p) by {
            assert(ok(bindings[i].value, p)) by {
                reveal(bindings_ok);
            }
            let value = bound_value(no_span(), bindings[i]);
            assert(ok(value, p));
            set_attr_holds(no_span(), bindings[i], value, None, ctx.hydratable, vocabulary, p);
            assert(stmt_ok(stmts[i], p));
            reveal(stmt_ok);
        }
        reveal(stmts_ok);
    }
}

proof fn declared_holds(
    elem: Seq<char>,
    init: ExprV,
    rest: Seq<DeclarationV>,
    p: spec_fn(KindV) -> bool,
)
    requires
        ok(init, p),
        declarations_ok(rest, p),
    ensures
        stmt_ok(
            StmtV::Var {
                kind: VarKind::Var,
                declarators: declarators_v(elem, init, rest),
            },
            p,
        ),
{
    reveal(stmt_ok);
    reveal(ok);
    let items = declarators_v(elem, init, rest);
    assert forall|i: int| 0 <= i < items.len() implies declarator_holds(#[trigger] items[i], p) by {
        if i == 0 {
            assert(items[i].init == Some(init));
            assert(option_holds(items[i].init, p));
        } else {
            reveal(declarations_ok);
            assert(items[i].init == Some(rest[i - 1].init));
            assert(ok(rest[i - 1].init, p));
            assert(option_holds(items[i].init, p));
        }
    }
    assert(declarators_hold(items, p));
}

proof fn template_output_holds(
    ctx: ContextV,
    result: ResultV,
    vocabulary: Vocabulary,
    p: spec_fn(KindV) -> bool,
)
    requires
        result_ok(result, p),
        result.output_kind is Dom,
    ensures
        ok(template_output_v(ctx, result, vocabulary).1, p),
{
    assert forall|hydratable: bool, template: Option<Seq<char>>|
        ok(#[trigger] element_call_v(hydratable, template), p) by {}
    assert forall|after: ContextV| stmts_ok(
        (#[trigger] dynamics_v(after, result.dynamics, vocabulary)).1,
        p,
    ) by {
        dynamics_hold(after, result.dynamics, vocabulary, p);
    }
    assert forall|elem: Seq<char>, init: ExprV| ok(init, p) implies stmt_ok(
        StmtV::Var {
            kind: VarKind::Var,
            declarators: #[trigger] declarators_v(elem, init, result.declarations),
        },
        p,
    ) by {
        declared_holds(elem, init, result.declarations, p);
    }
}

/// What a result is put out as keeps what holds of all JSX.
pub proof fn output_holds(
    ctx: ContextV,
    result: ResultV,
    vocabulary: Vocabulary,
    p: spec_fn(KindV) -> bool,
)
    requires
        result_ok(result, p),
        result.output_kind is Dom,
        can_output(result, ctx.hydratable),
    ensures
        ok(output_v(ctx, result, vocabulary).1, p),
    decreases result, 0nat,
{
    if result.child_results.len() > 0 {
        let children = result.child_results;
        outputs_hold(ctx, children, ctx.hydratable, vocabulary, p);
    } else if result.template.len() > 0 && !result.text {
        template_output_holds(ctx, result, vocabulary, p);
    }
}

proof fn outputs_hold(
    ctx: ContextV,
    results: Seq<ResultV>,
    hydratable: bool,
    vocabulary: Vocabulary,
    p: spec_fn(KindV) -> bool,
)
    requires
        ctx.hydratable == hydratable,
        forall|i: int| 0 <= i < results.len() ==> result_ok(#[trigger] results[i], p),
        forall|i: int|
            0 <= i < results.len() ==> match (#[trigger] results[i]).output_kind {
                OutputKind::Universal => results[i].universal_output is Some,
                OutputKind::Dom => can_output(results[i], hydratable),
            },
    ensures
        all_ok(outputs_v(ctx, results, vocabulary).1, p),
        outputs_v(ctx, results, vocabulary).0.hydratable == hydratable,
    decreases results, results.len(),
{
    if results.len() > 0 {
        let front = results.drop_last();
        assert forall|i: int| 0 <= i < front.len() implies result_ok(#[trigger] front[i], p) by {
            assert(front[i] == results[i]);
        }
        assert forall|i: int| 0 <= i < front.len() implies match (#[trigger] front[i]).output_kind {
            OutputKind::Universal => front[i].universal_output is Some,
            OutputKind::Dom => can_output(front[i], hydratable),
        } by {
            assert(front[i] == results[i]);
        }
        outputs_hold(ctx, front, hydratable, vocabulary, p);
        let head = outputs_v(ctx, front, vocabulary);
        let last = results[results.len() - 1];
        assert(result_ok(last, p));
        if last.output_kind is Dom {
            output_holds(head.0, last, vocabulary, p);
            output_grows(head.0, last, vocabulary);
            reveal(grows);
        }
    }
}

/// What JSX is put out as keeps what holds of all JSX.
pub proof fn put_out_holds(
    result: ResultV,
    ctx: ContextV,
    options: TransformOptions,
    vocabulary: Vocabulary,
    p: spec_fn(KindV) -> bool,
)
    requires
        made_ok(result, options, p),
    ensures
        put_out_v(result, ctx, options, vocabulary).0 matches ExitV::Dom(by) ==> ok(by, p),
{
    if let ExitV::Dom(by) = put_out_v(result, ctx, options, vocabulary).0 {
        output_holds(ctx, result, vocabulary, p);
    }
}

} // verus!
