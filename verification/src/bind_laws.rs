//! What holds `this` for a component, and what a called function leaves behind.

use crate::ast::{
    expr_value, stmt_value, stmt_values, Declarator, DeclaratorV, Expr, ExprV, Kind, KindV,
    PatternV, Stmt, StmtV, VarKind,
};
use crate::capture::{elements_r, expr_r, is_create, is_root_create, kind_r, RewriteV};
use crate::capture_class::{
    arrow_caught, caught, caught_stmt, property_caught, this_iife_v,
};
use crate::flatten::{flat_declarators, flat_stmt, flat_stmts, iife_parts};
use crate::output_laws::runs;
use crate::shape::is_name;
use vstd::prelude::*;

verus! {

// ---------------------------------------------------------------------------
// This
// ---------------------------------------------------------------------------

/// A statement lets a name stand for `this`.
pub open spec fn holds_this(stmt: StmtV, name: Seq<char>) -> bool {
    stmt matches StmtV::Var { kind, declarators } && kind == VarKind::Const && declarators.len() == 1
        && declarators[0].pattern == PatternV::Ident(name) && (
    declarators[0].init matches Some(value) && value.kind is This)
}

/// `this` becomes the name that stands for it, which is made when it is first
/// needed and kept from then on.
pub proof fn this_becomes_its_name(expr: Expr, held: Seq<u32>, st: RewriteV)
    requires
        expr.kind is This,
    ensures
        ({
            let (done, after) = expr_r(expr, held, st);
            &&& after.alias is Some
            &&& is_name(done, after.alias->0)
            &&& st.alias is Some ==> after.alias == st.alias && after.context == st.context
            &&& st.alias is None ==> after.alias == Some(st.context.uid("self$"@).1)
                && after.context == st.context.uid("self$"@).0
        }),
{
}

/// A function has a `this` of its own: it is left alone, except where it is a
/// getter, a setter or a method that stands for the component.
pub proof fn a_function_keeps_its_this(kind: Kind, held: Seq<u32>, st: RewriteV)
    requires
        kind is Function,
        !st.allow,
    ensures
        kind_r(kind, held, st) == (crate::ast::kind_value(kind), st),
{
}

/// The component that is created first is not itself rewritten: its name stays
/// what it was.
pub proof fn the_component_itself_stays(
    items: Seq<crate::ast::Element>,
    held: Seq<u32>,
    st: RewriteV,
)
    requires
        items.len() > 0,
    ensures
        ({
            let (done, after) = elements_r(items, 1, true, held, st);
            done.len() == 1 && done[0] == crate::ast::element_value(items[0]) && after == st
        }),
{
    reveal_with_fuel(elements_r, 2);
    let none = elements_r(items, 0, true, held, st);
    assert(none == (Seq::<crate::ast::ElementV>::empty(), st));
}

/// A call creates a component where it calls the helper for that, whatever is
/// round it.
pub proof fn a_component_is_created_by_the_helper(callee: ExprV)
    ensures
        callee.kind matches KindV::Ident { name, .. } ==> (is_create(callee) <==> name
            == "_$createComponent"@),
        callee.kind matches KindV::Paren(inner) ==> is_create(callee) == is_create(*inner),
        callee.kind is Member || callee.kind is Call ==> !is_create(callee),
{
}

/// Statements are done as they were, behind one that holds `this` where `this`
/// got a name.
pub open spec fn is_behind(done: Seq<StmtV>, stmt: StmtV, name: Option<Seq<char>>) -> bool {
    match name {
        None => done.len() == 1 && done[0] == stmt,
        Some(name) => done.len() == 2 && holds_this(done[0], name) && done[1] == stmt,
    }
}

/// A statement that creates a component comes behind the one that holds `this`
/// for it; any other but a block stays as it is.
pub proof fn a_statement_comes_behind_its_this(stmt: Stmt, held: Seq<u32>, st: RewriteV)
    ensures
        stmt matches Stmt::Expr(expr) ==> {
            let (done, after) = expr_r(*expr, held, st.fresh());
            let (list, end) = caught_stmt(stmt, held, st);
            if is_root_create(expr_value(*expr)) {
                is_behind(list, StmtV::Expr(done), after.alias) && end == after
            } else {
                list == seq![stmt_value(stmt)] && end == st
            }
        },
        stmt matches Stmt::Return(Some(expr)) ==> {
            let (done, after) = expr_r(*expr, held, st.fresh());
            let (list, end) = caught_stmt(stmt, held, st);
            if is_root_create(expr_value(*expr)) {
                is_behind(list, StmtV::Return(Some(done)), after.alias) && end == after
            } else {
                list == seq![stmt_value(stmt)] && end == st
            }
        },
        stmt is Var || stmt is If || stmt is Function || stmt is Opaque ==> caught_stmt(
            stmt,
            held,
            st,
        ) == (seq![stmt_value(stmt)], st),
{
    assert(Seq::empty().push(stmt_value(stmt)) =~= seq![stmt_value(stmt)]);
}

/// A list of statements is done one by one and in order.
pub proof fn statements_come_in_order(
    stmts: Seq<Stmt>,
    n: nat,
    held: Seq<u32>,
    st: RewriteV,
)
    requires
        n < stmts.len(),
    ensures
        ({
            let before = caught(stmts, n, held, st);
            let here = caught_stmt(stmts[n as int], held, before.1);
            caught(stmts, n + 1, held, st) == (before.0 + here.0, here.1)
        }),
        caught(stmts, 0, held, st) == (Seq::<StmtV>::empty(), st),
{
    reveal_with_fuel(caught, 2);
}

/// A function that returns a component holds `this` before it does.
pub proof fn an_arrow_holds_this(body: Seq<Stmt>, held: Seq<u32>, st: RewriteV)
    requires
        body.len() > 0,
        body[0] is Expr,
    ensures
        ({
            let expr = body[0]->Expr_0;
            let (done, after) = expr_r(*expr, held, st.fresh());
            let (expression, list, end) = arrow_caught(true, body, held, st);
            let created = is_root_create(expr_value(*expr));
            &&& created && after.alias is Some ==> !expression && is_behind(
                list,
                StmtV::Return(Some(done)),
                after.alias,
            )
            &&& created && after.alias is None ==> expression && list.len() == body.len() && list[0]
                == StmtV::Expr(done)
            &&& !created ==> expression && list == stmt_values(body) && end == st
        }),
{
}

/// A value that creates a component is the result of a function that holds
/// `this` first, where `this` got a name.
pub proof fn a_value_holds_this(expr: ExprV, name: Seq<char>)
    ensures
        this_iife_v(expr, name).kind matches KindV::Call { callee, .. } && (
        callee.kind matches KindV::Arrow { body, .. } && runs(this_iife_v(expr, name), body)
            && body.len() == 2 && holds_this(body[0], name) && body[1] == StmtV::Return(
            Some(expr),
        )),
{
}

/// A property of a class that creates a component does it with its own `this`.
pub proof fn a_property_holds_this(expr: Expr, held: Seq<u32>, st: RewriteV)
    requires
        !(expr.kind is Paren) && !(expr.kind is Typed) && !(expr.kind is Arrow) && !(expr.kind
            is Function),
    ensures
        ({
            let (done, after) = expr_r(expr, held, st.fresh());
            let (value, end) = property_caught(expr, held, st);
            if is_root_create(expr_value(expr)) {
                end == after && (after.alias is None ==> value == done) && (
                after.alias matches Some(name) ==> value == this_iife_v(done, name))
            } else {
                value == expr_value(expr) && end == st
            }
        }),
{
}

// ---------------------------------------------------------------------------
// Called functions
// ---------------------------------------------------------------------------

/// An expression calls a function without parameters at once, which runs some
/// statements and returns a value.
pub open spec fn runs_and_returns(expr: ExprV, before: Seq<StmtV>, value: ExprV) -> bool {
    expr.kind matches KindV::Call { callee, args, .. } && args.len() == 0 && (
    callee.kind matches KindV::Arrow { params, expression, body, .. } && params.len() == 0
        && !expression && body == before.push(StmtV::Return(Some(value))))
}

/// The parts of a called function are the statements before its last, and what
/// its last returns.
pub proof fn a_called_function_has_its_parts(expr: Expr)
    ensures
        iife_parts(expr) matches Some((before, value)) ==> runs_and_returns(
            expr_value(expr),
            before,
            value,
        ),
        !(expr.kind is Call) ==> iife_parts(expr) is None,
{
    if let Kind::Call { callee, args, .. } = &expr.kind {
        if let Kind::Arrow { params, expression, body, .. } = &callee.kind {
            if iife_parts(expr) is Some {
                let (before, value) = iife_parts(expr)->0;
                assert(stmt_values(body@).len() == body@.len());
                assert(stmt_values(body@).last() == stmt_value(body@.last()));
                assert(crate::ast::option_value(body@.last()->Return_0) == Some(value));
                assert(stmt_value(body@.last()) == StmtV::Return(Some(value)));
                assert(stmt_values(body@) =~= before.push(StmtV::Return(Some(value))));
                assert(crate::ast::element_values(args@).len() == 0);
                assert(expr_value(expr).kind == crate::ast::kind_value(expr.kind));
                assert(expr_value(expr).kind->Call_args == crate::ast::element_values(args@));
                let inner = *expr_value(expr).kind->Call_callee;
                assert(inner == expr_value(**callee));
                assert(inner.kind->Arrow_body == stmt_values(body@));
                assert(inner.kind->Arrow_params.len() == 0);
            }
        }
    }
}

/// To return what a called function returns is to run its statements and return
/// its value; any other statement but a declaration stays as it is.
pub proof fn a_return_is_flattened(stmt: Stmt)
    ensures
        stmt matches Stmt::Return(Some(expr)) ==> match iife_parts(*expr) {
            Some((before, value)) => flat_stmt(stmt) == before.push(StmtV::Return(Some(value))),
            None => flat_stmt(stmt) == seq![stmt_value(stmt)],
        },
        stmt is Expr || stmt is Block || stmt is If || stmt is Function || stmt is Opaque
            ==> flat_stmt(stmt) == seq![stmt_value(stmt)],
        stmt is Return && stmt->Return_0 is None ==> flat_stmt(stmt) == seq![stmt_value(stmt)],
{
}

/// A declaration is of the same pattern, and of the value, or of what the called
/// function returns.
pub open spec fn is_flat(done: DeclaratorV, item: Declarator) -> bool {
    &&& done.pattern == item.pattern@
    &&& item.init is None ==> done.init is None
    &&& item.init matches Some(init) ==> match iife_parts(*init) {
        Some((_, value)) => done.init == Some(value),
        None => done.init == Some(expr_value(*init)),
    }
}

/// The statements that the called functions of some declarations run.
pub open spec fn run_before(declarators: Seq<Declarator>, n: nat) -> Seq<StmtV>
    decreases n,
{
    if n == 0 || n > declarators.len() {
        seq![]
    } else {
        run_before(declarators, (n - 1) as nat) + match declarators[n - 1].init {
            Some(init) => match iife_parts(*init) {
                Some((before, _)) => before,
                None => seq![],
            },
            None => seq![],
        }
    }
}

/// Declarations stay in their order; the statements of the functions that they
/// call run before them, in this order too.
pub proof fn declarations_are_flattened(declarators: Seq<Declarator>, n: nat)
    requires
        n <= declarators.len(),
    ensures
        ({
            let (front, done) = flat_declarators(declarators, n);
            &&& done.len() == n
            &&& forall|i: int| 0 <= i < n ==> is_flat(#[trigger] done[i], declarators[i])
            &&& front == run_before(declarators, n)
        }),
    decreases n,
{
    if n > 0 {
        declarations_are_flattened(declarators, (n - 1) as nat);
        let (front, done) = flat_declarators(declarators, n);
        assert(is_flat(done[n - 1], declarators[n - 1]));
        assert(front =~= run_before(declarators, n));
        let head = flat_declarators(declarators, (n - 1) as nat).1;
        assert forall|i: int| 0 <= i < n implies is_flat(#[trigger] done[i], declarators[i]) by {
            if i < n - 1 {
                assert(done[i] == head[i]);
            }
        }
    }
}

/// A declaration statement keeps its kind and comes behind what its functions
/// run.
pub proof fn a_declaration_is_flattened(stmt: Stmt)
    requires
        stmt is Var,
    ensures
        ({
            let all = flat_stmt(stmt);
            let items = stmt->Var_declarators@;
            &&& all.len() > 0
            &&& all.drop_last() == run_before(items, items.len())
            &&& all.last() matches StmtV::Var { kind, declarators } && kind == stmt->Var_kind
                && declarators.len() == items.len() && forall|i: int|
                0 <= i < items.len() ==> is_flat(#[trigger] declarators[i], items[i])
        }),
{
    let items = stmt->Var_declarators@;
    declarations_are_flattened(items, items.len());
    let all = flat_stmt(stmt);
    assert(all.drop_last() =~= run_before(items, items.len()));
}

/// A list of statements is flattened one by one and in order.
pub proof fn statements_are_flattened_in_order(stmts: Seq<Stmt>, n: nat)
    ensures
        flat_stmts(stmts, n + 1) == flat_stmts(stmts, n) + flat_stmt(stmts[n as int]),
        flat_stmts(stmts, 0) == Seq::<StmtV>::empty(),
{
}

} // verus!
