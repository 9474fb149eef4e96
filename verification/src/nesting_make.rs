//! The JSX in what a transform makes.

use crate::ast::{
    element_value, element_values, expr_value, prop_value, prop_values, BinaryOp, DeclaratorV,
    Element, Expr, ExprV, JsxAttribute, JsxValue, KeyV, Kind, KindV, LogicalOp, Memo, PatternV,
    Prop, PropKind, PropV, Span, StmtV, UnaryOp,
};
use crate::attributes::{dom_helper_v, el_v, raw_template_v};
use crate::handlers::var_v;
use crate::ir::{BindingV, ContextV, DeclarationV, OutputKind, ResultV};
use crate::make::{
    args_v, array_v, arrow1_stmt_v, arrow1_v, arrow_v, assign_v, binary_v, bool_cast_v, bool_v,
    call_v, conditional_v, ident_v, logical_v, member_v, null_v, object_v, optional_member_v,
    sequence_v, str_v, thunk_v, unary_v, with_span_v,
};
use crate::merge::as_statements;
use crate::nesting::{
    declarator_holds, declarators_hold, element_holds, elements_hold, exprs_hold, holds,
    kind_holds, option_holds, prop_holds, props_hold, stmt_holds, stmts_hold,
};
use crate::output::expr_stmts;
use crate::peel::plain_call;
use crate::spread::{getter_v, pieces_template_v};
use vstd::prelude::*;

verus! {

// ---------------------------------------------------------------------------
// What holds of all JSX in what is made
// ---------------------------------------------------------------------------

/// `p` holds of all JSX in an expression.
#[verifier::opaque]
pub open spec fn ok(expr: ExprV, p: spec_fn(KindV) -> bool) -> bool {
    holds(expr, p)
}

/// In expressions.
#[verifier::opaque]
pub open spec fn all_ok(exprs: Seq<ExprV>, p: spec_fn(KindV) -> bool) -> bool {
    exprs_hold(exprs, p)
}

/// In a statement.
#[verifier::opaque]
pub open spec fn stmt_ok(stmt: StmtV, p: spec_fn(KindV) -> bool) -> bool {
    stmt_holds(stmt, p)
}

/// In statements.
#[verifier::opaque]
pub open spec fn stmts_ok(stmts: Seq<StmtV>, p: spec_fn(KindV) -> bool) -> bool {
    stmts_hold(stmts, p)
}

/// In a property.
#[verifier::opaque]
pub open spec fn prop_ok(prop: PropV, p: spec_fn(KindV) -> bool) -> bool {
    prop_holds(prop, p)
}

/// In properties.
#[verifier::opaque]
pub open spec fn props_ok(props: Seq<PropV>, p: spec_fn(KindV) -> bool) -> bool {
    props_hold(props, p)
}

/// In the values of bindings.
#[verifier::opaque]
pub open spec fn bindings_ok(items: Seq<BindingV>, p: spec_fn(KindV) -> bool) -> bool {
    forall|i: int| 0 <= i < items.len() ==> ok((#[trigger] items[i]).value, p)
}

/// In the initial values of declarations.
#[verifier::opaque]
pub open spec fn declarations_ok(items: Seq<DeclarationV>, p: spec_fn(KindV) -> bool) -> bool {
    forall|i: int| 0 <= i < items.len() ==> ok((#[trigger] items[i]).init, p)
}

/// In the result of an element of the DOM.
pub open spec fn body_ok(result: ResultV, p: spec_fn(KindV) -> bool) -> bool {
    &&& all_ok(result.exprs, p)
    &&& all_ok(result.post_exprs, p)
    &&& stmts_ok(result.statements, p)
    &&& bindings_ok(result.dynamics, p)
    &&& declarations_ok(result.declarations, p)
    &&& result.child_results.len() == 0
    &&& result.universal_output is None
    &&& result.output_kind is Dom
}

/// In a result as far as the DOM puts it out.
pub open spec fn result_ok(result: ResultV, p: spec_fn(KindV) -> bool) -> bool
    decreases result,
{
    match result.output_kind {
        OutputKind::Universal => result.universal_output matches Some(expr) ==> ok(expr, p),
        OutputKind::Dom => {
            &&& all_ok(result.exprs, p)
            &&& all_ok(result.post_exprs, p)
            &&& stmts_ok(result.statements, p)
            &&& bindings_ok(result.dynamics, p)
            &&& declarations_ok(result.declarations, p)
            &&& forall|i: int|
                0 <= i < result.child_results.len() ==> result_ok(
                    #[trigger] result.child_results[i],
                    p,
                )
        },
    }
}

// ---------------------------------------------------------------------------
// Lists
// ---------------------------------------------------------------------------

/// Where there is no expression there is no JSX.
pub broadcast proof fn no_exprs(p: spec_fn(KindV) -> bool)
    ensures
        #[trigger] all_ok(Seq::<ExprV>::empty(), p),
{
    reveal(all_ok);
}

/// One more expression.
pub broadcast proof fn more_exprs(exprs: Seq<ExprV>, expr: ExprV, p: spec_fn(KindV) -> bool)
    ensures
        #[trigger] all_ok(exprs.push(expr), p) == (all_ok(exprs, p) && ok(expr, p)),
{
    reveal(all_ok);
    reveal(ok);
    if all_ok(exprs.push(expr), p) {
        assert(exprs.push(expr)[exprs.len() as int] == expr);
        assert forall|i: int| 0 <= i < exprs.len() implies holds(#[trigger] exprs[i], p) by {
            assert(exprs.push(expr)[i] == exprs[i]);
        }
    }
}

/// Expressions behind others.
pub broadcast proof fn exprs_behind(a: Seq<ExprV>, b: Seq<ExprV>, p: spec_fn(KindV) -> bool)
    ensures
        #[trigger] all_ok(a + b, p) == (all_ok(a, p) && all_ok(b, p)),
{
    reveal(all_ok);
    if all_ok(a + b, p) {
        assert forall|i: int| 0 <= i < a.len() implies holds(#[trigger] a[i], p) by {
            assert((a + b)[i] == a[i]);
        }
        assert forall|i: int| 0 <= i < b.len() implies holds(#[trigger] b[i], p) by {
            assert((a + b)[a.len() + i] == b[i]);
        }
    }
}

/// One of several expressions.
pub broadcast proof fn one_of_exprs(exprs: Seq<ExprV>, i: int, p: spec_fn(KindV) -> bool)
    requires
        #[trigger] all_ok(exprs, p),
        0 <= i < exprs.len(),
    ensures
        ok(#[trigger] exprs[i], p),
{
    reveal(all_ok);
    reveal(ok);
}

/// A few expressions.
pub broadcast proof fn few_exprs(items: Seq<ExprV>, p: spec_fn(KindV) -> bool)
    requires
        2 <= items.len() <= 4,
    ensures
        #[trigger] all_ok(items, p) == (ok(items[0], p) && ok(items[1], p) && (items.len() > 2
            ==> ok(items[2], p)) && (items.len() > 3
            ==> ok(items[3], p))),
{
    reveal(all_ok);
    reveal(ok);
    let all = ok(items[0], p) && ok(items[1], p) && (items.len() > 2 ==> ok(items[2], p)) && (items.len() > 3 ==> ok(items[3], p));
    if all {
        assert forall|i: int| 0 <= i < items.len() implies holds(#[trigger] items[i], p) by {
            assert(i == 0 || i == 1 || i == 2 || i == 3);
        }
    }
}

/// A few statements.
pub broadcast proof fn few_stmts(items: Seq<StmtV>, p: spec_fn(KindV) -> bool)
    requires
        2 <= items.len() <= 2,
    ensures
        #[trigger] stmts_ok(items, p) == (stmt_ok(items[0], p) && stmt_ok(items[1], p)),
{
    reveal(stmts_ok);
    reveal(stmt_ok);
    let all = stmt_ok(items[0], p) && stmt_ok(items[1], p);
    if all {
        assert forall|i: int| 0 <= i < items.len() implies stmt_holds(#[trigger] items[i], p) by {
            assert(i == 0 || i == 1);
        }
    }
}

/// Where there is no statement there is no JSX.
pub broadcast proof fn no_stmts(p: spec_fn(KindV) -> bool)
    ensures
        #[trigger] stmts_ok(Seq::<StmtV>::empty(), p),
{
    reveal(stmts_ok);
}

/// One more statement.
pub broadcast proof fn more_stmts(stmts: Seq<StmtV>, stmt: StmtV, p: spec_fn(KindV) -> bool)
    ensures
        #[trigger] stmts_ok(stmts.push(stmt), p) == (stmts_ok(stmts, p) && stmt_ok(stmt, p)),
{
    reveal(stmts_ok);
    reveal(stmt_ok);
    if stmts_ok(stmts.push(stmt), p) {
        assert(stmts.push(stmt)[stmts.len() as int] == stmt);
        assert forall|i: int| 0 <= i < stmts.len() implies stmt_holds(#[trigger] stmts[i], p) by {
            assert(stmts.push(stmt)[i] == stmts[i]);
        }
    }
}

/// Statements behind others.
pub broadcast proof fn stmts_behind(a: Seq<StmtV>, b: Seq<StmtV>, p: spec_fn(KindV) -> bool)
    ensures
        #[trigger] stmts_ok(a + b, p) == (stmts_ok(a, p) && stmts_ok(b, p)),
{
    reveal(stmts_ok);
    if stmts_ok(a + b, p) {
        assert forall|i: int| 0 <= i < a.len() implies stmt_holds(#[trigger] a[i], p) by {
            assert((a + b)[i] == a[i]);
        }
        assert forall|i: int| 0 <= i < b.len() implies stmt_holds(#[trigger] b[i], p) by {
            assert((a + b)[a.len() + i] == b[i]);
        }
    }
}

/// Expressions as statements.
pub broadcast proof fn said_stmts(exprs: Seq<ExprV>, p: spec_fn(KindV) -> bool)
    ensures
        #[trigger] stmts_ok(as_statements(exprs), p) == all_ok(exprs, p),
        as_statements(exprs) == expr_stmts(exprs),
{
    reveal(stmts_ok);
    reveal(all_ok);
    if stmts_ok(as_statements(exprs), p) {
        assert forall|i: int| 0 <= i < exprs.len() implies holds(#[trigger] exprs[i], p) by {
            assert(as_statements(exprs)[i] == StmtV::Expr(exprs[i]));
        }
    }
}

/// Expressions as the statements of an output.
pub broadcast proof fn put_out_stmts(exprs: Seq<ExprV>, p: spec_fn(KindV) -> bool)
    ensures
        #[trigger] stmts_ok(expr_stmts(exprs), p) == all_ok(exprs, p),
{
    said_stmts(exprs, p);
}

/// The statement of an expression.
pub broadcast proof fn expr_stmt(expr: ExprV, p: spec_fn(KindV) -> bool)
    ensures
        #[trigger] stmt_ok(StmtV::Expr(expr), p) == ok(expr, p),
{
    reveal(stmt_ok);
    reveal(ok);
}

/// A `return`.
pub broadcast proof fn return_stmt(expr: ExprV, p: spec_fn(KindV) -> bool)
    ensures
        #[trigger] stmt_ok(StmtV::Return(Some(expr)), p) == ok(expr, p),
{
    reveal(stmt_ok);
    reveal(ok);
    assert(option_holds(Some(expr), p) == holds(expr, p));
}

/// A declaration.
pub broadcast proof fn var_stmt(name: Seq<char>, init: ExprV, p: spec_fn(KindV) -> bool)
    ensures
        #[trigger] stmt_ok(var_v(name, init), p) == ok(init, p),
{
    reveal(stmt_ok);
    reveal(ok);
    let item = DeclaratorV { pattern: PatternV::Ident(name), init: Some(init) };
    let items = seq![item];
    assert(option_holds(Some(init), p) == holds(init, p));
    assert(declarator_holds(items[0], p) == holds(init, p));
    assert(declarators_hold(items, p) == holds(init, p)) by {
        if holds(init, p) {
            assert forall|i: int| 0 <= i < items.len() implies declarator_holds(
                #[trigger] items[i],
                p,
            ) by {
                assert(items[i] == item);
            }
        }
    }
}

/// Where there is no property there is no JSX.
pub broadcast proof fn no_props(p: spec_fn(KindV) -> bool)
    ensures
        #[trigger] props_ok(Seq::<PropV>::empty(), p),
{
    reveal(props_ok);
}

/// One more property.
pub broadcast proof fn more_props(props: Seq<PropV>, prop: PropV, p: spec_fn(KindV) -> bool)
    ensures
        #[trigger] props_ok(props.push(prop), p) == (props_ok(props, p) && prop_ok(prop, p)),
{
    reveal(props_ok);
    reveal(prop_ok);
    if props_ok(props.push(prop), p) {
        assert(props.push(prop)[props.len() as int] == prop);
        assert forall|i: int| 0 <= i < props.len() implies prop_holds(#[trigger] props[i], p) by {
            assert(props.push(prop)[i] == props[i]);
        }
    }
}

/// A property whose name is not computed.
pub broadcast proof fn named_prop(
    span: Span,
    kind: PropKind,
    key: KeyV,
    value: ExprV,
    method: bool,
    shorthand: bool,
    computed: bool,
    p: spec_fn(KindV) -> bool,
)
    requires
        !(key is Expr),
    ensures
        #[trigger] prop_ok(
            PropV::Named { span, kind, key, value, method, shorthand, computed },
            p,
        ) == ok(value, p),
{
    reveal(prop_ok);
    reveal(ok);
}

/// A spread.
pub broadcast proof fn spread_prop(span: Span, argument: ExprV, p: spec_fn(KindV) -> bool)
    ensures
        #[trigger] prop_ok(PropV::Spread { span, argument }, p) == ok(argument, p),
{
    reveal(prop_ok);
    reveal(ok);
}

/// Where there is no binding there is no JSX.
pub broadcast proof fn no_bindings(p: spec_fn(KindV) -> bool)
    ensures
        #[trigger] bindings_ok(Seq::<BindingV>::empty(), p),
{
    reveal(bindings_ok);
}

/// One more binding.
pub broadcast proof fn more_bindings(
    items: Seq<BindingV>,
    item: BindingV,
    p: spec_fn(KindV) -> bool,
)
    ensures
        #[trigger] bindings_ok(items.push(item), p) == (bindings_ok(items, p) && ok(item.value, p)),
{
    reveal(bindings_ok);
    if bindings_ok(items.push(item), p) {
        assert(items.push(item)[items.len() as int] == item);
        assert forall|i: int| 0 <= i < items.len() implies ok((#[trigger] items[i]).value, p) by {
            assert(items.push(item)[i] == items[i]);
        }
    }
}

/// Bindings behind others.
pub broadcast proof fn bindings_behind(
    a: Seq<BindingV>,
    b: Seq<BindingV>,
    p: spec_fn(KindV) -> bool,
)
    ensures
        #[trigger] bindings_ok(a + b, p) == (bindings_ok(a, p) && bindings_ok(b, p)),
{
    reveal(bindings_ok);
    if bindings_ok(a + b, p) {
        assert forall|i: int| 0 <= i < a.len() implies ok((#[trigger] a[i]).value, p) by {
            assert((a + b)[i] == a[i]);
        }
        assert forall|i: int| 0 <= i < b.len() implies ok((#[trigger] b[i]).value, p) by {
            assert((a + b)[a.len() + i] == b[i]);
        }
    }
}

/// Where there is no declaration there is no JSX.
pub broadcast proof fn no_declarations(p: spec_fn(KindV) -> bool)
    ensures
        #[trigger] declarations_ok(Seq::<DeclarationV>::empty(), p),
{
    reveal(declarations_ok);
}

/// One more declaration.
pub broadcast proof fn more_declarations(
    items: Seq<DeclarationV>,
    item: DeclarationV,
    p: spec_fn(KindV) -> bool,
)
    ensures
        #[trigger] declarations_ok(items.push(item), p) == (declarations_ok(items, p) && ok(
            item.init,
            p,
        )),
{
    reveal(declarations_ok);
    if declarations_ok(items.push(item), p) {
        assert(items.push(item)[items.len() as int] == item);
        assert forall|i: int| 0 <= i < items.len() implies ok((#[trigger] items[i]).init, p) by {
            assert(items.push(item)[i] == items[i]);
        }
    }
}

/// Declarations behind others.
pub broadcast proof fn declarations_behind(
    a: Seq<DeclarationV>,
    b: Seq<DeclarationV>,
    p: spec_fn(KindV) -> bool,
)
    ensures
        #[trigger] declarations_ok(a + b, p) == (declarations_ok(a, p) && declarations_ok(b, p)),
{
    reveal(declarations_ok);
    if declarations_ok(a + b, p) {
        assert forall|i: int| 0 <= i < a.len() implies ok((#[trigger] a[i]).init, p) by {
            assert((a + b)[i] == a[i]);
        }
        assert forall|i: int| 0 <= i < b.len() implies ok((#[trigger] b[i]).init, p) by {
            assert((a + b)[a.len() + i] == b[i]);
        }
    }
}

// ---------------------------------------------------------------------------
// Expressions
// ---------------------------------------------------------------------------

/// A name holds no JSX.
pub broadcast proof fn a_name(span: Span, name: Seq<char>, p: spec_fn(KindV) -> bool)
    ensures
        #[trigger] ok(ident_v(span, name), p),
{
    reveal(ok);
}

/// A text holds no JSX.
pub broadcast proof fn a_text(span: Span, text: Seq<char>, p: spec_fn(KindV) -> bool)
    ensures
        #[trigger] ok(str_v(span, text), p),
{
    reveal(ok);
}

/// A boolean holds no JSX.
pub broadcast proof fn a_flag(span: Span, value: bool, p: spec_fn(KindV) -> bool)
    ensures
        #[trigger] ok(bool_v(span, value), p),
{
    reveal(ok);
}

/// `null` holds no JSX.
pub broadcast proof fn a_null(span: Span, p: spec_fn(KindV) -> bool)
    ensures
        #[trigger] ok(null_v(span), p),
{
    reveal(ok);
}

/// A variable holds no JSX.
pub broadcast proof fn a_local(name: Seq<char>, p: spec_fn(KindV) -> bool)
    ensures
        #[trigger] ok(el_v(name), p),
{
    reveal(ok);
}

/// A helper holds no JSX.
pub broadcast proof fn a_helper(ctx: ContextV, span: Span, name: Seq<char>, p: spec_fn(KindV) -> bool)
    ensures
        #[trigger] ok(dom_helper_v(ctx, span, name).1, p),
{
    reveal(ok);
}

/// A member of an object.
pub broadcast proof fn a_member(span: Span, object: ExprV, property: Seq<char>, p: spec_fn(KindV) -> bool)
    ensures
        #[trigger] ok(member_v(span, object, property), p) == ok(object, p),
{
    reveal(ok);
}

proof fn args_ok(args: Seq<ExprV>, p: spec_fn(KindV) -> bool)
    ensures
        elements_hold(args_v(args), p) == exprs_hold(args, p),
{
    if elements_hold(args_v(args), p) {
        assert forall|i: int| 0 <= i < args.len() implies holds(#[trigger] args[i], p) by {
            assert(element_holds(args_v(args)[i], p));
        }
    }
    if exprs_hold(args, p) {
        assert forall|i: int| 0 <= i < args.len() implies element_holds(
            #[trigger] args_v(args)[i],
            p,
        ) by {
            assert(holds(args[i], p));
        }
    }
}

/// A call.
pub broadcast proof fn a_call(span: Span, callee: ExprV, args: Seq<ExprV>, p: spec_fn(KindV) -> bool)
    ensures
        #[trigger] ok(call_v(span, callee, args), p) == (ok(callee, p) && all_ok(args, p)),
{
    reveal(ok);
    reveal(all_ok);
    args_ok(args, p);
}

/// An array.
pub broadcast proof fn an_array(span: Span, items: Seq<ExprV>, p: spec_fn(KindV) -> bool)
    ensures
        #[trigger] ok(array_v(span, items), p) == all_ok(items, p),
{
    reveal(ok);
    reveal(all_ok);
    args_ok(items, p);
}

/// A sequence.
pub broadcast proof fn a_sequence(span: Span, items: Seq<ExprV>, p: spec_fn(KindV) -> bool)
    ensures
        #[trigger] ok(sequence_v(span, items), p) == all_ok(items, p),
{
    reveal(ok);
    reveal(all_ok);
}

/// An object.
pub broadcast proof fn an_object(span: Span, props: Seq<PropV>, p: spec_fn(KindV) -> bool)
    ensures
        #[trigger] ok(object_v(span, props), p) == props_ok(props, p),
{
    reveal(ok);
    reveal(props_ok);
}

/// An arrow function.
pub broadcast proof fn an_arrow(span: Span, params: Seq<PatternV>, expression: bool, body: Seq<StmtV>, p: spec_fn(KindV) -> bool)
    ensures
        #[trigger] ok(arrow_v(span, params, expression, body), p) == stmts_ok(body, p),
{
    reveal(ok);
    reveal(stmts_ok);
}

/// An arrow function without parameters.
pub broadcast proof fn a_thunk(span: Span, expr: ExprV, p: spec_fn(KindV) -> bool)
    ensures
        #[trigger] ok(thunk_v(span, expr), p) == ok(expr, p),
{
    let body = seq![StmtV::Expr(expr)];
    an_arrow(span, Seq::empty(), true, body, p);
    no_stmts(p);
    more_stmts(Seq::empty(), StmtV::Expr(expr), p);
    expr_stmt(expr, p);
}

/// An arrow function of one parameter.
pub broadcast proof fn an_arrow_of_one(span: Span, param: Seq<char>, expr: ExprV, p: spec_fn(KindV) -> bool)
    ensures
        #[trigger] ok(arrow1_v(span, param, expr), p) == ok(expr, p),
{
    let body = seq![StmtV::Expr(expr)];
    an_arrow(span, seq![PatternV::Ident(param)], true, body, p);
    no_stmts(p);
    more_stmts(Seq::empty(), StmtV::Expr(expr), p);
    expr_stmt(expr, p);
}

/// An arrow function of one parameter that returns nothing.
pub broadcast proof fn an_arrow_that_runs(span: Span, param: Seq<char>, expr: ExprV, p: spec_fn(KindV) -> bool)
    ensures
        #[trigger] ok(arrow1_stmt_v(span, param, expr), p) == ok(expr, p),
{
    let body = seq![StmtV::Expr(expr)];
    an_arrow(span, seq![PatternV::Ident(param)], false, body, p);
    no_stmts(p);
    more_stmts(Seq::empty(), StmtV::Expr(expr), p);
    expr_stmt(expr, p);
}

/// An assignment.
pub broadcast proof fn an_assignment(span: Span, target: ExprV, value: ExprV, p: spec_fn(KindV) -> bool)
    ensures
        #[trigger] ok(assign_v(span, target, value), p) == (ok(target, p) && ok(value, p)),
{
    reveal(ok);
}

/// A unary operation.
pub broadcast proof fn a_unary(span: Span, op: UnaryOp, argument: ExprV, p: spec_fn(KindV) -> bool)
    ensures
        #[trigger] ok(unary_v(span, op, argument), p) == ok(argument, p),
{
    reveal(ok);
}

/// A cast to a boolean.
pub broadcast proof fn a_cast(span: Span, expr: ExprV, p: spec_fn(KindV) -> bool)
    ensures
        #[trigger] ok(bool_cast_v(span, expr), p) == ok(expr, p),
{
    reveal(ok);
    a_unary(span, UnaryOp::Not, expr, p);
    a_unary(span, UnaryOp::Not, unary_v(span, UnaryOp::Not, expr), p);
}

/// A binary operation.
pub broadcast proof fn a_binary(span: Span, left: ExprV, op: BinaryOp, right: ExprV, p: spec_fn(KindV) -> bool)
    ensures
        #[trigger] ok(binary_v(span, left, op, right), p) == (ok(left, p) && ok(right, p)),
{
    reveal(ok);
}

/// A logical operation.
pub broadcast proof fn a_logical(span: Span, left: ExprV, op: LogicalOp, right: ExprV, p: spec_fn(KindV) -> bool)
    ensures
        #[trigger] ok(logical_v(span, left, op, right), p) == (ok(left, p) && ok(right, p)),
{
    reveal(ok);
}

/// A conditional.
pub broadcast proof fn a_conditional(span: Span, test: ExprV, consequent: ExprV, alternate: ExprV, p: spec_fn(KindV) -> bool)
    ensures
        #[trigger] ok(conditional_v(span, test, consequent, alternate), p) == (ok(test, p) && ok(consequent, p) && ok(alternate, p)),
{
    reveal(ok);
}

/// An optional member of an object.
pub broadcast proof fn an_optional_member(
    span: Span,
    object: ExprV,
    property: Seq<char>,
    p: spec_fn(KindV) -> bool,
)
    ensures
        #[trigger] ok(optional_member_v(span, object, property), p) == ok(object, p),
{
    reveal(ok);
    let chain = optional_member_v(span, object, property);
    let inner = *chain.kind->Chain_0;
    assert(holds(inner, p) == kind_holds(inner.kind, p));
    assert(kind_holds(inner.kind, p) == holds(object, p));
}

/// An expression with another span.
pub broadcast proof fn a_place(expr: ExprV, span: Span, p: spec_fn(KindV) -> bool)
    ensures
        #[trigger] ok(with_span_v(expr, span), p) == ok(expr, p),
{
    reveal(ok);
}

/// A template without expressions holds no JSX.
pub broadcast proof fn a_raw_text(raw: Seq<char>, p: spec_fn(KindV) -> bool)
    ensures
        #[trigger] ok(raw_template_v(raw), p),
{
    reveal(ok);
    assert(exprs_hold(Seq::empty(), p));
}

/// A template.
pub broadcast proof fn pieces(pieces: Seq<Seq<char>>, values: Seq<ExprV>, p: spec_fn(KindV) -> bool)
    ensures
        #[trigger] ok(pieces_template_v(pieces, values), p) == all_ok(values, p),
{
    reveal(ok);
    reveal(all_ok);
}

/// A getter.
pub broadcast proof fn a_getter(expr: ExprV, p: spec_fn(KindV) -> bool)
    ensures
        #[trigger] ok(getter_v(expr), p) == ok(expr, p),
{
    reveal(ok);
    reveal(stmts_ok);
    no_stmts(p);
    more_stmts(Seq::empty(), StmtV::Return(Some(expr)), p);
    return_stmt(expr, p);
}

pub broadcast group group_made {
    no_exprs,
    more_exprs,
    exprs_behind,
    one_of_exprs,
    few_exprs,
    few_stmts,
    no_stmts,
    more_stmts,
    stmts_behind,
    said_stmts,
    put_out_stmts,
    expr_stmt,
    return_stmt,
    var_stmt,
    no_props,
    more_props,
    named_prop,
    spread_prop,
    no_bindings,
    more_bindings,
    bindings_behind,
    no_declarations,
    more_declarations,
    declarations_behind,
    a_name,
    a_text,
    a_flag,
    a_null,
    a_local,
    a_helper,
    a_member,
    a_call,
    an_array,
    a_sequence,
    an_object,
    an_arrow,
    a_thunk,
    an_arrow_of_one,
    an_arrow_that_runs,
    an_assignment,
    a_unary,
    a_cast,
    a_binary,
    a_logical,
    a_conditional,
    an_optional_member,
    a_place,
    a_raw_text,
    pieces,
    a_getter,
    a_plain_call,
}

// ---------------------------------------------------------------------------
// Expressions of the source
// ---------------------------------------------------------------------------

/// `p` holds of all JSX in an expression of the source and in its memoized
/// forms.
pub open spec fn expr_in(expr: Expr, p: spec_fn(KindV) -> bool) -> bool {
    &&& ok(expr_value(expr), p)
    &&& expr.facts.condition matches Some(condition) ==> memo_in(condition.inline, p) && memo_in(
        condition.insert,
        p,
    )
}

/// `p` holds of all JSX in a memoized form.
pub open spec fn memo_in(memo: Option<Memo>, p: spec_fn(KindV) -> bool) -> bool {
    memo matches Some(memo) ==> ok(expr_value(*memo.expr), p)
}

/// `p` holds of all JSX in the value of an attribute, as far as it is looked at.
pub open spec fn attr_in(attr: JsxAttribute, p: spec_fn(KindV) -> bool) -> bool {
    match attr.value {
        JsxValue::Container { expr: Some(expr), .. } => expr_in(*expr, p),
        _ => true,
    }
}

/// `p` holds of all JSX in some properties.
pub open spec fn props_in(props: Seq<Prop>, p: spec_fn(KindV) -> bool) -> bool {
    forall|i: int| 0 <= i < props.len() ==> prop_ok(prop_value(#[trigger] props[i]), p)
}

/// The callee of a call.
pub broadcast proof fn a_plain_call(expr: Expr, p: spec_fn(KindV) -> bool)
    requires
        #[trigger] ok(expr_value(expr), p),
    ensures
        #[trigger] plain_call(expr) matches Some(callee) ==> ok(expr_value(callee), p),
{
    reveal(ok);
}

/// An element of an array.
pub proof fn an_element(expr: &Expr, i: int, p: spec_fn(KindV) -> bool)
    requires
        ok(expr_value(*expr), p),
    ensures
        expr.kind matches Kind::Array(items) ==> 0 <= i < items@.len() ==> (
        items@[i] matches Element::Expr(item) ==> ok(expr_value(*item), p)),
{
    reveal(ok);
    if let Kind::Array(items) = &expr.kind {
        if 0 <= i < items@.len() {
            assert(expr_value(*expr).kind == KindV::Array(element_values(items@)));
            assert(kind_holds(KindV::Array(element_values(items@)), p));
            assert(elements_hold(element_values(items@), p));
            assert(element_holds(element_values(items@)[i], p));
            assert(element_values(items@)[i] == element_value(items@[i]));
        }
    }
}

/// The properties of an object.
pub proof fn given_props(expr: &Expr, p: spec_fn(KindV) -> bool)
    requires
        ok(expr_value(*expr), p),
    ensures
        expr.kind matches Kind::Object(props) ==> props_in(props@, p),
{
    reveal(ok);
    reveal(prop_ok);
    if let Kind::Object(props) = &expr.kind {
        assert(expr_value(*expr).kind == KindV::Object(prop_values(props@)));
        assert(kind_holds(KindV::Object(prop_values(props@)), p));
        assert(props_hold(prop_values(props@), p));
        assert forall|i: int| 0 <= i < props@.len() implies prop_ok(
            prop_value(#[trigger] props@[i]),
            p,
        ) by {
            assert(prop_holds(prop_values(props@)[i], p));
            assert(prop_values(props@)[i] == prop_value(props@[i]));
        }
    }
}

} // verus!

