//! What the code that stands for an element does.

use crate::ast::{ElementV, Expr, ExprV, JsxElement, JsxText, KindV, PatternV, StmtV, VarKind};
use crate::attributes::wraps_memos;
use crate::info::InfoV;
use crate::ir::{template_name, ContextV, DeclarationV, OutputKind, ResultV, TemplateV};
use crate::node::{collected_v, contained_v, created_v, memo_v, spread_v, text_v, texts_v};
use crate::options::TransformOptions;
use crate::output::{
    dynamics_v, element_call_v, expr_output_v, is_math_ml, is_static, output_v, outputs_v,
    template_of, template_output_v,
};
use crate::peel::plain_call;
use crate::shape::{arg, callee, calls, calls_helper, is_call, is_name, is_text, is_thunk};
use crate::vocabulary::Vocabulary;
use vstd::prelude::*;

verus! {

// ---------------------------------------------------------------------------
// Templates
// ---------------------------------------------------------------------------

/// The template of a result has its content, is SVG where the result is, and is
/// imported where it holds a custom element or a frame.
pub proof fn a_template_is_that_of_its_result(result: ResultV)
    ensures
        template_of(result).content == result.template,
        template_of(result).is_svg == result.template_is_svg,
        template_of(result).use_import_node <==> result.has_custom_element
            || result.is_import_node,
        result.closed.len() > 0 ==> template_of(result).validation_content == result.closed,
        result.closed.len() == 0 ==> template_of(result).validation_content == result.template,
        template_of(result).is_math_ml == is_math_ml(result.template),
{
}

/// A template that is asked for again is the same one, and one that was asked
/// for as an import stays one.
pub proof fn a_template_is_kept(ctx: ContextV, template: TemplateV)
    ensures
        ({
            let (done, at) = ctx.add_template(template);
            &&& template.use_import_node ==> done.templates[at as int].use_import_node
            &&& at < ctx.templates.len() && ctx.templates[at as int].use_import_node
                ==> done.templates[at as int].use_import_node
            &&& at >= ctx.templates.len() ==> done.templates == ctx.templates.push(template)
            &&& done.add_template(template).1 == at
        }),
{
    crate::ir::add_template_gives_its_index(ctx, template);
    let (done, at) = ctx.add_template(template);
    let mid = ctx.register("template"@);
    let again = done.register("template"@);
    assert(again.templates == done.templates);
    first_same(mid.templates, template);
    first_same(done.templates, template);
    assert forall|i: int| 0 <= i < at implies !(#[trigger] done.templates[i]).is_same(
        template.content,
        template.is_svg,
        template.is_math_ml,
    ) by {
        assert(done.templates[i] == mid.templates[i]);
    }
}

proof fn first_same(templates: Seq<TemplateV>, template: TemplateV)
    ensures
        ({
            let at = crate::ir::template_position(
                templates,
                template.content,
                template.is_svg,
                template.is_math_ml,
            );
            &&& at <= templates.len()
            &&& at < templates.len() ==> templates[at as int].is_same(
                template.content,
                template.is_svg,
                template.is_math_ml,
            )
            &&& forall|i: int|
                0 <= i < at ==> !(#[trigger] templates[i]).is_same(
                    template.content,
                    template.is_svg,
                    template.is_math_ml,
                )
        }),
    decreases templates.len(),
{
    if templates.len() > 0 && !templates[0].is_same(
        template.content,
        template.is_svg,
        template.is_math_ml,
    ) {
        first_same(templates.skip(1), template);
        let at = crate::ir::template_position(
            templates,
            template.content,
            template.is_svg,
            template.is_math_ml,
        );
        assert forall|i: int| 0 <= i < at implies !(#[trigger] templates[i]).is_same(
            template.content,
            template.is_svg,
            template.is_math_ml,
        ) by {
            if i > 0 {
                assert(templates.skip(1)[i - 1] == templates[i]);
            }
        }
    }
}

/// An expression gives the element of a template: a clone of it, or the element
/// that is hydrated next.
pub open spec fn gives_element(made: ExprV, hydratable: bool, template: Option<Seq<char>>) -> bool {
    if hydratable {
        match template {
            Some(name) => calls_helper(made, "getNextElement"@, 1) && is_name(arg(made, 0), name),
            None => calls_helper(made, "getNextElement"@, 0),
        }
    } else {
        template is Some && calls(made, template->0, 0)
    }
}

/// An element comes from its own template.
pub proof fn an_element_comes_from_its_template(hydratable: bool, template: Option<Seq<char>>)
    requires
        hydratable || template is Some,
    ensures
        gives_element(element_call_v(hydratable, template), hydratable, template),
{
}

/// An expression calls a function at once, with this body.
pub open spec fn runs(expr: ExprV, body: Seq<StmtV>) -> bool {
    &&& is_call(expr, 0)
    &&& callee(expr).kind matches KindV::Arrow { is_async, params, expression, body: b }
        && !is_async && params.len() == 0 && !expression && b == body
}

/// A statement declares the element, and then the variables of the result, in
/// order.
pub open spec fn declares(
    stmt: StmtV,
    elem: Seq<char>,
    made: ExprV,
    rest: Seq<DeclarationV>,
) -> bool {
    stmt matches StmtV::Var { kind, declarators } && kind == VarKind::Var && declarators.len() == 1
        + rest.len() && declarators[0].pattern == PatternV::Ident(elem) && declarators[0].init
        == Some(made) && forall|i: int|
        0 <= i < rest.len() ==> (#[trigger] rest[i]).pattern == declarators[i + 1].pattern
            && declarators[i + 1].init == Some(rest[i].init)
}

/// The statements that run expressions one by one.
pub open spec fn in_a_row(exprs: Seq<ExprV>) -> Seq<StmtV> {
    Seq::new(exprs.len(), |i: int| StmtV::Expr(exprs[i]))
}

/// The variable of the element of a result.
pub open spec fn elem_of(result: ResultV) -> Seq<char> {
    match result.id {
        Some(id) => id,
        None => "_el$"@,
    }
}

/// The variable of the template of a result, where it has one of its own.
pub open spec fn template_var(ctx: ContextV, result: ResultV) -> Option<Seq<char>> {
    if result.skip_template {
        None
    } else {
        Some(template_name(ctx.add_template(template_of(result)).1))
    }
}

/// A body declares the element, runs the statements, the expressions, the updates
/// and what comes last, in this order, and returns the element.
pub open spec fn makes_ready(
    body: Seq<StmtV>,
    result: ResultV,
    hydratable: bool,
    template: Option<Seq<char>>,
    updates: Seq<StmtV>,
) -> bool {
    &&& body.len() > 1
    &&& body[0] matches StmtV::Var { declarators, .. } && declarators.len() > 0
        && declarators[0].init is Some && gives_element(
        declarators[0].init->0,
        hydratable,
        template,
    ) && declares(body[0], elem_of(result), declarators[0].init->0, result.declarations)
    &&& body == seq![body[0]] + result.statements + in_a_row(result.exprs) + updates + in_a_row(
        result.post_exprs,
    ) + seq![body.last()]
    &&& body.last() matches StmtV::Return(Some(value)) && is_name(value, elem_of(result))
}

/// What is made of a result with a template is its element where nothing is done
/// to it, else a function that makes the element ready and returns it.
pub proof fn an_element_is_made_ready(ctx: ContextV, result: ResultV, vocabulary: Vocabulary)
    requires
        ctx.hydratable || !result.skip_template,
    ensures
        ({
            let out = template_output_v(ctx, result, vocabulary).1;
            let template = template_var(ctx, result);
            &&& is_static(result) ==> gives_element(out, ctx.hydratable, template)
            &&& !is_static(result) ==> runs(out, callee(out).kind->Arrow_body) && exists|
                late: ContextV,
            |
                late.effect_wrapper_enabled == ctx.effect_wrapper_enabled && late.hydratable
                    == ctx.hydratable && makes_ready(
                    callee(out).kind->Arrow_body,
                    result,
                    ctx.hydratable,
                    template,
                    (#[trigger] dynamics_v(late, result.dynamics, vocabulary)).1,
                )
        }),
{
    let template = template_var(ctx, result);
    let before = if result.skip_template {
        ctx
    } else {
        ctx.add_template(template_of(result)).0
    };
    let late = if before.hydratable {
        before.register("getNextElement"@)
    } else {
        before
    };
    let made = element_call_v(late.hydratable, template);
    an_element_comes_from_its_template(late.hydratable, template);
    if !is_static(result) {
        let out = template_output_v(ctx, result, vocabulary).1;
        let body = callee(out).kind->Arrow_body;
        let updates = dynamics_v(late, result.dynamics, vocabulary).1;
        assert(declares(body[0], elem_of(result), made, result.declarations));
        assert(in_a_row(result.exprs) =~= crate::output::expr_stmts(result.exprs));
        assert(in_a_row(result.post_exprs) =~= crate::output::expr_stmts(result.post_exprs));
        assert(body =~= seq![body[0]] + result.statements + in_a_row(result.exprs) + updates
            + in_a_row(result.post_exprs) + seq![body.last()]);
        assert(makes_ready(body, result, ctx.hydratable, template, updates));
    }
}

// ---------------------------------------------------------------------------
// Expressions
// ---------------------------------------------------------------------------

/// A result without a template is its expressions: nothing where there is none,
/// the only one, a memo of it where it changes, or all in a row.
pub proof fn a_result_is_its_expressions(ctx: ContextV, result: ResultV)
    ensures
        ({
            let out = expr_output_v(ctx, result).1;
            let exprs = result.exprs;
            &&& exprs.len() == 0 ==> is_text(out, ""@)
            &&& exprs.len() > 0 && result.needs_memo ==> calls_helper(out, "memo"@, exprs.len())
                && forall|i: int| 0 <= i < exprs.len() ==> arg(out, i) == #[trigger] exprs[i]
            &&& exprs.len() == 1 && !result.needs_memo ==> out == exprs[0]
            &&& exprs.len() > 1 && !result.needs_memo ==> out.kind == KindV::Sequence(exprs)
        }),
{
}

/// A text is put out as itself.
pub proof fn a_text_is_put_out(ctx: ContextV, result: ResultV, vocabulary: Vocabulary)
    requires
        result.child_results.len() == 0,
        result.text,
        result.template.len() > 0,
    ensures
        is_text(output_v(ctx, result, vocabulary).1, result.template),
        output_v(ctx, result, vocabulary).0 == ctx,
{
}

/// Several results are put out as an array, one by one and in order: what the
/// universal renderer made stands for itself, and any other is put out.
pub proof fn several_results_are_put_out(
    ctx: ContextV,
    results: Seq<ResultV>,
    vocabulary: Vocabulary,
)
    ensures
        outputs_v(ctx, results, vocabulary).1.len() == results.len(),
        forall|i: int|
            0 <= i < results.len() ==> is_put_out(
                #[trigger] outputs_v(ctx, results, vocabulary).1[i],
                results[i],
                vocabulary,
            ),
    decreases results.len(),
{
    if results.len() > 0 {
        let front = results.drop_last();
        several_results_are_put_out(ctx, front, vocabulary);
        let head = outputs_v(ctx, front, vocabulary);
        let all = outputs_v(ctx, results, vocabulary);
        let last = results[results.len() - 1];
        let after = output_v(head.0, last, vocabulary);
        assert(is_put_out(all.1[results.len() - 1], last, vocabulary));
        assert forall|i: int| 0 <= i < results.len() implies is_put_out(
            #[trigger] all.1[i],
            results[i],
            vocabulary,
        ) by {
            if i < front.len() {
                assert(all.1[i] == head.1[i]);
                assert(front[i] == results[i]);
            }
        }
    }
}

/// An expression is what a result is put out as.
pub open spec fn is_put_out(out: ExprV, result: ResultV, vocabulary: Vocabulary) -> bool {
    match result.output_kind {
        OutputKind::Universal => result.universal_output is Some ==> result.universal_output
            == Some(out),
        OutputKind::Dom => exists|ctx: ContextV|
            (#[trigger] output_v(ctx, result, vocabulary)).1 == out,
    }
}

/// A fragment of several children is an array of as many.
pub proof fn a_fragment_is_an_array(ctx: ContextV, result: ResultV, vocabulary: Vocabulary)
    requires
        result.child_results.len() > 0,
    ensures
        output_v(ctx, result, vocabulary).1.kind matches KindV::Array(items) && items.len()
            == result.child_results.len() && forall|i: int|
            0 <= i < items.len() ==> (#[trigger] items[i]) is Expr && is_put_out(
                items[i]->Expr_0,
                result.child_results[i],
                vocabulary,
            ),
{
    several_results_are_put_out(ctx, result.child_results, vocabulary);
    let outputs = outputs_v(ctx, result.child_results, vocabulary).1;
    let items = output_v(ctx, result, vocabulary).1.kind->Array_0;
    assert forall|i: int| 0 <= i < items.len() implies (#[trigger] items[i]) is Expr && is_put_out(
        items[i]->Expr_0,
        result.child_results[i],
        vocabulary,
    ) by {
        assert(items[i] == ElementV::Expr(outputs[i]));
    }
}

// ---------------------------------------------------------------------------
// Nodes
// ---------------------------------------------------------------------------

/// A text is shown as the source has it, or decoded where it is no part of a
/// template; an empty one is not shown.
pub proof fn a_text_node_is_its_text(text: JsxText, info: InfoV)
    ensures
        text_v(text, info) is Some <==> text.content@.len() > 0,
        text_v(text, info) matches Some(result) ==> result.text && result.exprs.len() == 0
            && result.child_results.len() == 0 && result.template == if info.component_child
            || info.fragment_child {
            text.decoded@
        } else {
            text.content@
        },
{
}

/// What does not change stands for itself; what changes is computed again, by
/// the function that is called where nothing but a call is made.
pub proof fn a_contained_expression_is_computed(
    expr: Expr,
    info: InfoV,
    options: TransformOptions,
)
    ensures
        ({
            let out = contained_v(expr, info, options);
            &&& !expr.facts.dynamic ==> out == expr@
            &&& expr.facts.dynamic && !info.component_child && plain_call(expr) is Some ==> out == (
            plain_call(expr)->0)@
            &&& expr.facts.dynamic && (info.component_child || plain_call(expr) is None)
                && expr.facts.condition is None ==> is_thunk(out, expr@)
            &&& expr.facts.dynamic && !options.wrap_conditionals && (info.component_child
                || plain_call(expr) is None) ==> is_thunk(out, expr@)
        }),
{
}

/// A spread child stands for itself, or is computed again where it changes.
pub proof fn a_spread_child_is_computed(expr: Expr)
    ensures
        !expr.facts.dynamic ==> spread_v(expr) == expr@,
        expr.facts.dynamic && plain_call(expr) is Some ==> spread_v(expr) == (plain_call(expr)->0)@,
        expr.facts.dynamic && plain_call(expr) is None ==> is_thunk(spread_v(expr), expr@),
{
}

/// An element of the universal renderer is created from its tag, and its
/// variable holds it.
pub proof fn an_element_is_created(element: JsxElement, elem: Seq<char>)
    ensures
        ({
            let made = created_v(element, elem);
            &&& made.id == Some(elem)
            &&& made.output_kind == OutputKind::Universal
            &&& made.declarations.len() == 1
            &&& made.declarations[0].pattern == PatternV::Ident(elem)
            &&& calls_helper(made.declarations[0].init, "createElement"@, 1)
            &&& is_text(arg(made.declarations[0].init, 0), element.tag@)
            &&& made.exprs.len() == 0 && made.statements.len() == 0 && made.template.len() == 0
        }),
{
}

/// A child of a fragment that changes is put in a memo.
pub proof fn a_changing_child_is_a_memo(
    child: ResultV,
    changing: bool,
    options: TransformOptions,
)
    ensures
        changing && wraps_memos(options) && child.template.len() == 0 && child.exprs.len() > 0
            ==> memo_v(child, changing, options).needs_memo,
        !changing || !wraps_memos(options) ==> memo_v(child, changing, options) == child,
        memo_v(child, changing, options).exprs == child.exprs,
        memo_v(child, changing, options).template == child.template,
{
}

/// The texts of two lists of children are those of the first and then those of
/// the second.
pub proof fn texts_keep_their_order(a: Seq<ResultV>, b: Seq<ResultV>)
    ensures
        texts_v(a + b) == texts_v(a) + texts_v(b),
    decreases b.len(),
{
    if b.len() == 0 {
        assert(a + b =~= a);
        assert(texts_v(a) + texts_v(b) =~= texts_v(a));
    } else {
        assert((a + b).drop_last() =~= a + b.drop_last());
        assert((a + b).last() == b.last());
        texts_keep_their_order(a, b.drop_last());
        assert(texts_v(a + b) =~= texts_v(a) + texts_v(b));
    }
}

/// The text of one child is its own.
pub proof fn the_text_of_one(child: ResultV)
    ensures
        texts_v(seq![child]) == child.template,
{
    assert(seq![child].drop_last() =~= seq![]);
    assert(texts_v(seq![child].drop_last()) == Seq::<char>::empty());
    assert(texts_v(seq![child]) =~= child.template);
}

/// A fragment without children is an empty array, one with one child is that
/// child, one of texts is their text, and any other is its children.
pub proof fn a_fragment_is_its_children(
    fragment: crate::ast::JsxFragment,
    children: Seq<ResultV>,
    changing: Seq<bool>,
    options: TransformOptions,
)
    ensures
        ({
            let out = collected_v(fragment, children, changing, options);
            let texts = forall|i: int| 0 <= i < children.len() ==> (#[trigger] children[i]).text;
            &&& children.len() == 0 ==> out.exprs.len() == 1 && (
            out.exprs[0].kind matches KindV::Array(items) && items.len() == 0)
            &&& children.len() == 1 ==> out.exprs == children[0].exprs && out.template
                == children[0].template && out.dynamics == children[0].dynamics
            &&& children.len() > 1 && texts ==> out.text && out.template == texts_v(children)
            &&& children.len() > 1 && !texts ==> out.child_results.len() == children.len()
                && forall|i: int|
                0 <= i < children.len() ==> (#[trigger] out.child_results[i]).exprs
                    == children[i].exprs && out.child_results[i].template == children[i].template
        }),
{
    reveal(collected_v);
}

} // verus!
