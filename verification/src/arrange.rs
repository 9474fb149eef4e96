//! The children of an element of the universal renderer, put in their places.

use crate::ast::{
    expr_values, group_values, quasi_values, stmt_values, Expr, ExprV, KindV, Pattern, PatternV, Quasi,
    QuasiV, Span, Stmt, StmtV,
};
use crate::ir::{
    helper_ident_expr, helper_v, opt, result_value, result_values, BlockContext, ContextV, ResultV,
    TransformResult,
};
use crate::make::{
    call1, call2, call3, call_v, copied, ident, ident_v, node_v, null, null_v, template,
};
use crate::merge::{
    as_statements, parts, results_at, results_none, results_push, results_remove_first,
};
use crate::outside::share;
use crate::peel::{literal_text_from_expr, literal_text_v};
use crate::program::{escape_string_for_template, template_text};
use crate::text::{escape_html, escape_html_v};
use crate::universal::{universal_helper, universal_helper_v};
use std::rc::Rc;
use vstd::prelude::*;

verus! {

// ---------------------------------------------------------------------------
// Text
// ---------------------------------------------------------------------------

/// A child that is a literal is text, and a text has a variable.
pub open spec fn normal_v(child: ResultV, ctx: ContextV) -> (ResultV, ContextV) {
    let literal = if !child.text && child.id is None && child.exprs.len() == 1 {
        literal_text_v(child.exprs[0])
    } else {
        None
    };
    match literal {
        Some(text) => {
            let fresh = ctx.uid("el$"@);
            (
                ResultV {
                    text: true,
                    template: escape_html_v(text, false),
                    id: Some(fresh.1),
                    exprs: seq![],
                    ..child
                },
                fresh.0,
            )
        },
        None => if child.text && child.id is None {
            let fresh = ctx.uid("el$"@);
            (ResultV { id: Some(fresh.1), ..child }, fresh.0)
        } else {
            (child, ctx)
        },
    }
}

/// The children, one after the other.
pub open spec fn normals_v(children: Seq<ResultV>, ctx: ContextV) -> (Seq<ResultV>, ContextV)
    decreases children.len(),
{
    if children.len() == 0 {
        (seq![], ctx)
    } else {
        let before = normals_v(children.drop_last(), ctx);
        let last = normal_v(children.last(), before.1);
        (before.0.push(last.0), last.1)
    }
}

fn normalize_child(child: TransformResult, context: &mut BlockContext) -> (normal: TransformResult)
    ensures
        (normal@, final(context)@) == normal_v(child@, old(context)@),
{
    proof {
        parts(child);
    }
    let mut child = child;
    if !child.text && child.id.is_none() && child.exprs.len() == 1 {
        if let Some(text) = literal_text_from_expr(&child.exprs[0]) {
            let id = context.generate_uid("el$");
            let shown = escape_html(text.as_str(), false);
            proof {
                reveal(result_value);
            }
            child.text = true;
            child.template = shown;
            child.id = Some(id);
            child.exprs = Vec::new();
            proof {
                assert(expr_values(child.exprs@) =~= seq![]);
            }
            return child;
        }
    }
    if child.text && child.id.is_none() {
        let id = context.generate_uid("el$");
        proof {
            reveal(result_value);
        }
        child.id = Some(id);
    }
    child
}

fn normalize_children(children: Vec<TransformResult>, context: &mut BlockContext) -> (normal: Vec<
    TransformResult,
>)
    ensures
        (result_values(normal@), final(context)@) == normals_v(
            result_values(children@),
            old(context)@,
        ),
{
    let ghost all = result_values(children@);
    let mut rest = children;
    let mut normal: Vec<TransformResult> = Vec::new();
    let ghost mut i: int = 0;
    proof {
        results_none(normal@);
        assert(all.take(0) =~= seq![]);
        assert(all.skip(0) =~= all);
    }
    while rest.len() > 0
        invariant
            0 <= i <= all.len(),
            result_values(rest@) == all.skip(i),
            (result_values(normal@), context@) == normals_v(all.take(i), old(context)@),
        decreases rest.len(),
    {
        let ghost rest0 = rest@;
        let ghost normal0 = normal@;
        let child = rest.remove(0);
        proof {
            results_remove_first(rest0);
            assert(all.skip(i).skip(1) =~= all.skip(i + 1));
            assert(all.take(i + 1).drop_last() =~= all.take(i));
            assert(all.take(i + 1).last() == child@);
        }
        let done = normalize_child(child, context);
        proof {
            results_push(normal0, done);
        }
        normal.push(done);
        proof {
            i = i + 1;
        }
    }
    proof {
        results_none(rest@);
        assert(all.skip(i).len() == 0);
        assert(all.take(i) =~= all);
    }
    normal
}

/// Texts that follow each other are one text.
pub open spec fn merged_v(children: Seq<ResultV>) -> Seq<ResultV>
    decreases children.len(),
{
    if children.len() == 0 {
        seq![]
    } else {
        let before = merged_v(children.drop_last());
        let child = children.last();
        if child.text && before.len() > 0 && before.last().text {
            before.drop_last().push(
                ResultV {
                    template: before.last().template + child.template,
                    ..before.last()
                },
            )
        } else {
            before.push(child)
        }
    }
}

fn merge_text(previous: TransformResult, more: &str) -> (merged: TransformResult)
    ensures
        merged@ == (ResultV { template: previous@.template + more@, ..previous@ }),
{
    let mut merged = previous;
    merged.push_template_text(more);
    merged
}

fn merge_texts(children: Vec<TransformResult>) -> (merged: Vec<TransformResult>)
    ensures
        result_values(merged@) == merged_v(result_values(children@)),
{
    let ghost all = result_values(children@);
    let mut rest = children;
    let mut merged: Vec<TransformResult> = Vec::new();
    let ghost mut i: int = 0;
    proof {
        results_none(merged@);
        assert(all.take(0) =~= seq![]);
        assert(all.skip(0) =~= all);
    }
    while rest.len() > 0
        invariant
            0 <= i <= all.len(),
            result_values(rest@) == all.skip(i),
            result_values(merged@) == merged_v(all.take(i)),
        decreases rest.len(),
    {
        let ghost rest0 = rest@;
        let ghost merged0 = merged@;
        let child = rest.remove(0);
        proof {
            parts(child);
            results_remove_first(rest0);
            assert(all.skip(i).skip(1) =~= all.skip(i + 1));
            assert(all.take(i + 1).drop_last() =~= all.take(i));
            assert(all.take(i + 1).last() == child@);
            if merged0.len() > 0 {
                parts(merged0.last());
                results_at(merged0, merged0.len() - 1);
                results_push(merged0.drop_last(), merged0.last());
                assert(merged0.drop_last().push(merged0.last()) =~= merged0);
                assert(result_values(merged0).drop_last() =~= result_values(merged0.drop_last()));
            } else {
                results_none(merged0);
            }
        }
        let behind_text = merged.len() > 0 && merged[merged.len() - 1].text;
        if child.text && behind_text {
            if let Some(previous) = merged.pop() {
                let joined = merge_text(previous, child.template.as_str());
                proof {
                    results_push(merged0.drop_last(), joined);
                }
                merged.push(joined);
            }
        } else {
            proof {
                results_push(merged0, child);
            }
            merged.push(child);
        }
        proof {
            i = i + 1;
        }
    }
    proof {
        results_none(rest@);
        assert(all.skip(i).len() == 0);
        assert(all.take(i) =~= all);
    }
    merged
}

// ---------------------------------------------------------------------------
// Places
// ---------------------------------------------------------------------------

/// An element with the children so far: its result, the context, and the
/// statements that insert nodes.
pub ghost struct ArrangeV {
    pub result: ResultV,
    pub ctx: ContextV,
    pub appends: Seq<StmtV>,
}

/// The variable of the first child that has one.
pub open spec fn first_id(children: Seq<ResultV>) -> Option<Seq<char>>
    decreases children.len(),
{
    if children.len() == 0 {
        None
    } else if children[0].id is Some {
        children[0].id
    } else {
        first_id(children.skip(1))
    }
}

/// The expressions of a child; a fragment of several children has one that
/// stands for all of them.
pub open spec fn exprs_of(child: ResultV) -> Seq<ExprV> {
    if child.child_results.len() == 0 {
        child.exprs
    } else {
        match child.universal_output {
            Some(expr) => seq![expr],
            None => seq![],
        }
    }
}

/// With what is run for a child.
pub open spec fn run_v(result: ResultV, child: ResultV, last: Seq<StmtV>) -> ResultV {
    ResultV {
        declarations: result.declarations + child.declarations,
        statements: result.statements + child.statements + last,
        dynamics: result.dynamics + child.dynamics,
        post_exprs: result.post_exprs + child.post_exprs,
        ..result
    }
}

/// A text as a template literal.
pub open spec fn text_literal_v(span: Span, text: Seq<char>) -> ExprV {
    node_v(
        span,
        KindV::Template {
            quasis: seq![QuasiV { raw: template_text(text), cooked: Some(text) }],
            exprs: seq![],
        },
    )
}

/// The node of a child: that of its variable; a text is made, and held by its
/// variable where it has siblings.
#[verifier::opaque]
pub open spec fn node_of_v(child: ResultV, multi: bool, result: ResultV, ctx: ContextV) -> (
    ResultV,
    ContextV,
    ExprV,
) {
    if child.text {
        let made = call_v(
            child.span,
            helper_v(child.span, "createTextNode"@),
            seq![text_literal_v(child.span, child.template)],
        );
        let ctx1 = ctx.register("createTextNode"@);
        if multi {
            let (ctx2, id) = match child.id {
                Some(id) => (ctx1, id),
                None => ctx1.uid("el$"@),
            };
            (
                result.with_declaration(PatternV::Ident(id), made),
                ctx2,
                ident_v(child.span, id),
            )
        } else {
            (result, ctx1, made)
        }
    } else {
        (result, ctx, ident_v(child.span, child.id->0))
    }
}

/// What is inserted before: a node, or nothing.
pub open spec fn marker_v(span: Span, marker: Option<Seq<char>>) -> ExprV {
    match marker {
        Some(id) => ident_v(span, id),
        None => null_v(span),
    }
}

fn marker_expr(span: Span, marker: &Option<String>) -> (expr: Rc<Expr>)
    ensures
        expr@ == marker_v(span, opt(*marker)),
{
    match marker {
        Some(id) => ident(span, id.as_str()),
        None => null(span),
    }
}

/// Puts one child in its place.
#[verifier::opaque]
pub open spec fn child_placed_v(
    child: ResultV,
    multi: bool,
    parent: Seq<char>,
    marker: Option<Seq<char>>,
    state: ArrangeV,
) -> ArrangeV {
    let exprs = exprs_of(child);
    if child.text || child.id is Some {
        let made = node_of_v(child, multi, state.result, state.ctx.register("insertNode"@));
        let append = call_v(
            child.span,
            helper_v(child.span, "insertNode"@),
            seq![ident_v(child.span, parent), made.2],
        );
        ArrangeV {
            result: run_v(made.0, child, as_statements(exprs)),
            ctx: made.1,
            appends: state.appends.push(StmtV::Expr(append)),
        }
    } else if exprs.len() > 0 {
        let helper = universal_helper_v(state.ctx, child.span, "insert"@);
        let args = if multi {
            seq![
                ident_v(child.span, parent),
                exprs[0],
                marker_v(child.span, marker),
            ]
        } else {
            seq![ident_v(child.span, parent), exprs[0]]
        };
        ArrangeV {
            result: run_v(
                state.result,
                child,
                seq![StmtV::Expr(call_v(child.span, helper.1, args))],
            ),
            ctx: helper.0,
            ..state
        }
    } else {
        state
    }
}

/// Puts the children in their places, one after the other.  An expression goes
/// before the next child that has a variable.
pub open spec fn each_placed_v(
    children: Seq<ResultV>,
    multi: bool,
    parent: Seq<char>,
    state: ArrangeV,
) -> ArrangeV
    decreases children.len(),
{
    if children.len() == 0 {
        state
    } else {
        let rest = children.skip(1);
        let marker = if multi {
            first_id(rest)
        } else {
            None
        };
        each_placed_v(
            rest,
            multi,
            parent,
            child_placed_v(children[0], multi, parent, marker, state),
        )
    }
}

/// Puts the children of an element in their places.
#[verifier::opaque]
pub open spec fn arranged_v(
    children: Seq<ResultV>,
    parent: Seq<char>,
    result: ResultV,
    ctx: ContextV,
) -> (ResultV, ContextV) {
    if children.len() == 0 {
        (result, ctx)
    } else {
        let normal = normals_v(children, ctx);
        let done = each_placed_v(
            merged_v(normal.0),
            children.len() > 1,
            parent,
            ArrangeV { result, ctx: normal.1, appends: seq![] },
        );
        (
            ResultV { statements: done.appends + done.result.statements, ..done.result },
            done.ctx,
        )
    }
}

fn next_child_id(children: &Vec<TransformResult>) -> (id: Option<String>)
    ensures
        opt(id) == first_id(result_values(children@)),
{
    let ghost all = result_values(children@);
    let mut i: usize = 0;
    proof {
        assert(all.skip(0) =~= all);
    }
    while i < children.len()
        invariant
            i <= children.len(),
            all == result_values(children@),
            all.len() == children@.len(),
            first_id(all.skip(i as int)) == first_id(all),
        decreases children.len() - i,
    {
        proof {
            results_at(children@, i as int);
            parts(children@[i as int]);
            assert(all.skip(i as int)[0] == all[i as int]);
            assert(all.skip(i as int).skip(1) =~= all.skip(i + 1));
        }
        if let Some(id) = &children[i].id {
            return Some(id.clone());
        }
        i = i + 1;
    }
    None
}

fn text_literal(span: Span, text: &str) -> (expr: Rc<Expr>)
    ensures
        expr@ == text_literal_v(span, text@),
{
    let raw = escape_string_for_template(text);
    let mut quasis: Vec<Quasi> = Vec::new();
    quasis.push(Quasi { raw, cooked: Some(copied(text)) });
    proof {
        assert(quasi_values(quasis@) =~= seq![QuasiV { raw: raw@, cooked: Some(text@) }]);
    }
    let exprs: Vec<Rc<Expr>> = Vec::new();
    proof {
        assert(expr_values(exprs@) =~= seq![]);
    }
    template(span, quasis, exprs)
}

/// The node of a child.
fn node_of(
    child: &TransformResult,
    multi: bool,
    result: &mut TransformResult,
    context: &mut BlockContext,
) -> (node: Rc<Expr>)
    requires
        child@.text || child@.id is Some,
    ensures
        (final(result)@, final(context)@, node@) == node_of_v(
            child@,
            multi,
            old(result)@,
            old(context)@,
        ),
{
    proof {
        reveal(node_of_v);
        parts(*child);
    }
    let span = child.span;
    if child.text {
        context.register_helper("createTextNode");
        let made = call1(
            span,
            helper_ident_expr(span, "createTextNode"),
            text_literal(span, child.template.as_str()),
        );
        if multi {
            let id = match &child.id {
                Some(id) => id.clone(),
                None => context.generate_uid("el$"),
            };
            let node = ident(span, id.as_str());
            result.push_declaration(Pattern::Ident(id), made);
            node
        } else {
            made
        }
    } else {
        match &child.id {
            Some(id) => ident(span, id.as_str()),
            None => ident(span, ""),
        }
    }
}

/// The expressions of a child.
fn take_exprs(child: &mut TransformResult) -> (exprs: Vec<Rc<Expr>>)
    ensures
        expr_values(exprs@) == exprs_of(old(child)@),
        final(child)@ == (ResultV { exprs: final(child)@.exprs, ..old(child)@ }),
{
    proof {
        parts(*child);
    }
    if child.child_results.len() > 0 {
        let mut exprs: Vec<Rc<Expr>> = Vec::new();
        proof {
            results_at(child.child_results@, 0);
            assert(expr_values(exprs@) =~= seq![]);
        }
        if let Some(expr) = &child.universal_output {
            exprs.push(share(expr));
            proof {
                assert(expr_values(exprs@) =~= seq![expr@]);
            }
        }
        return exprs;
    }
    proof {
        results_none(child.child_results@);
        reveal(result_value);
    }
    let mut exprs: Vec<Rc<Expr>> = Vec::new();
    std::mem::swap(&mut exprs, &mut child.exprs);
    exprs
}

/// With what is run for a child.
fn run_child(result: &mut TransformResult, child: TransformResult, last: Vec<Stmt>)
    ensures
        final(result)@ == run_v(old(result)@, child@, stmt_values(last@)),
{
    proof {
        parts(child);
    }
    result.append_declarations(child.declarations);
    result.append_statements(child.statements);
    result.append_statements(last);
    result.append_bindings(child.dynamics);
    result.append_post_exprs(child.post_exprs);
}

fn statements_of(exprs: Vec<Rc<Expr>>) -> (stmts: Vec<Stmt>)
    ensures
        stmt_values(stmts@) == as_statements(expr_values(exprs@)),
{
    let mut stmts: Vec<Stmt> = Vec::new();
    let mut i: usize = 0;
    while i < exprs.len()
        invariant
            i <= exprs.len(),
            stmts@.len() == i,
            forall|k: int| 0 <= k < i ==> #[trigger] stmts@[k] == Stmt::Expr(exprs@[k]),
        decreases exprs.len() - i,
    {
        stmts.push(Stmt::Expr(share(&exprs[i])));
        i = i + 1;
    }
    proof {
        assert forall|k: int| 0 <= k < stmts@.len() implies stmt_values(stmts@)[k]
            == as_statements(expr_values(exprs@))[k] by {
            assert(stmts@[k] == Stmt::Expr(exprs@[k]));
        }
        assert(stmt_values(stmts@) =~= as_statements(expr_values(exprs@)));
    }
    stmts
}

/// Puts one child in its place.
fn place_node(
    child: TransformResult,
    multi: bool,
    parent: &str,
    marker: Option<String>,
    result: &mut TransformResult,
    context: &mut BlockContext,
    appends: &mut Vec<Stmt>,
)
    ensures
        (ArrangeV {
            result: final(result)@,
            ctx: final(context)@,
            appends: stmt_values(final(appends)@),
        }) == child_placed_v(
            child@,
            multi,
            parent@,
            opt(marker),
            ArrangeV {
                result: old(result)@,
                ctx: old(context)@,
                appends: stmt_values(old(appends)@),
            },
        ),
{
    broadcast use group_values;

    proof {
        reveal(child_placed_v);
        parts(child);
    }
    let span = child.span;
    let mut child = child;
    let exprs = take_exprs(&mut child);
    proof {
        parts(child);
        assert(expr_values(exprs@).len() == exprs@.len());
    }
    if child.text || child.id.is_some() {
        context.register_helper("insertNode");
        let node = node_of(&child, multi, result, context);
        proof {
            reveal(node_of_v);
        }
        let append = call2(
            span,
            helper_ident_expr(span, "insertNode"),
            ident(span, parent),
            node,
        );
        let stmt = Stmt::Expr(append);
        proof {
            assert(stmt@ == StmtV::Expr(append@));
        }
        appends.push(stmt);
        run_child(result, child, statements_of(exprs));
    } else if exprs.len() > 0 {
        let value = share(&exprs[0]);
        proof {
            assert(value@ == expr_values(exprs@)[0]);
        }
        let callee = universal_helper(context, span, "insert");
        let call = if multi {
            call3(span, callee, ident(span, parent), value, marker_expr(span, &marker))
        } else {
            call2(span, callee, ident(span, parent), value)
        };
        let mut last: Vec<Stmt> = Vec::new();
        last.push(Stmt::Expr(call));
        proof {
            assert(stmt_values(last@) =~= seq![StmtV::Expr(call@)]);
        }
        run_child(result, child, last);
    }
}

/// Puts the children of an element in their places.
pub fn arrange_children(
    children: Vec<TransformResult>,
    parent: &str,
    result: &mut TransformResult,
    context: &mut BlockContext,
)
    ensures
        (final(result)@, final(context)@) == arranged_v(
            result_values(children@),
            parent@,
            old(result)@,
            old(context)@,
        ),
{
    proof {
        reveal(arranged_v);
    }
    if children.len() == 0 {
        proof {
            results_none(children@);
        }
        return;
    }
    proof {
        results_at(children@, 0);
    }
    let multi = children.len() > 1;
    let mut nodes = merge_texts(normalize_children(children, context));
    let mut appends: Vec<Stmt> = Vec::new();
    proof {
        assert(stmt_values(appends@) =~= seq![]);
    }
    let ghost all = result_values(nodes@);
    let ghost start = ArrangeV { result: result@, ctx: context@, appends: seq![] };
    while nodes.len() > 0
        invariant
            each_placed_v(
                result_values(nodes@),
                multi,
                parent@,
                ArrangeV { result: result@, ctx: context@, appends: stmt_values(appends@) },
            ) == each_placed_v(all, multi, parent@, start),
        decreases nodes.len(),
    {
        proof {
            results_remove_first(nodes@);
        }
        let child = nodes.remove(0);
        let marker = if multi {
            next_child_id(&nodes)
        } else {
            None
        };
        place_node(child, multi, parent, marker, result, context, &mut appends);
    }
    proof {
        results_none(nodes@);
    }
    result.prepend_statements(appends);
}

} // verus!
