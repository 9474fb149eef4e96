//! Where there is no `this`, nothing changes.

use crate::ast::{
    declarator_values, element_value, element_values, expr_value, expr_values, key_value,
    kind_value, option_value, prop_value, prop_values, stmt_value, stmt_values, Declarator,
    DeclaratorV, Element, Expr, Key, Kind, Pattern, Prop, Stmt,
};
use crate::capture::{
    declarator_r, declarators_r, element_r, elements_r, expr_r, exprs_r, is_create, key_r, kind_r,
    option_r, pattern_r, patterns_r, prop_r, props_r, stmt_r, stmts_r, RewriteV,
};
use crate::ir::ContextV;
use std::rc::Rc;
use vstd::prelude::*;

verus! {

/// Nothing of a context changed but the numbers of its variables, and the steps
/// that gave them.
pub open spec fn only_counts(ctx: ContextV, later: ContextV) -> bool {
    later == ContextV { counts: later.counts, steps: later.steps, ..ctx }
}

/// A name for `this` stays once there is one; and as long as there is none,
/// nothing is made or noted.  A name only takes a number.
pub open spec fn steady(st: RewriteV, later: RewriteV) -> bool {
    &&& st.alias is Some ==> later.alias == st.alias
    &&& later.alias is None ==> later.context == st.context && later.rewritten == st.rewritten
    &&& later.allow == st.allow
    &&& only_counts(st.context, later.context)
}

spec fn after(expr: &Expr, held: Seq<u32>, st: RewriteV) -> RewriteV {
    expr_r(*expr, held, st).1
}

spec fn after_stmt(stmt: &Stmt, held: Seq<u32>, st: RewriteV) -> RewriteV {
    stmt_r(*stmt, held, st).1
}

spec fn without_accessor(st: RewriteV) -> RewriteV {
    RewriteV { allow: false, ..st }
}

/// An expression in which `this` was not replaced is as before, and the name
/// for `this` is one and the same throughout.
pub proof fn expression_without_this_stays(expr: &Expr, held: Seq<u32>, st: RewriteV)
    ensures
        steady(st, expr_r(*expr, held, st).1),
        expr_r(*expr, held, st).1.alias is None ==> expr_r(*expr, held, st).0 == expr_value(*expr),
    decreases *expr, 0nat,
{
    if !(expr.kind is This) {
        kind_stays(&expr.kind, held, st);
    }
}

proof fn kind_stays(kind: &Kind, held: Seq<u32>, st: RewriteV)
    ensures
        steady(st, kind_r(*kind, held, st).1),
        kind_r(*kind, held, st).1.alias is None ==> kind_r(*kind, held, st).0 == kind_value(*kind),
    decreases *kind, 0nat,
{
    match kind {
        Kind::Template { quasis, exprs } => {
            exprs_stay(exprs@, exprs@.len(), held, st);
            assert(expr_values(exprs@).take(exprs@.len() as int) =~= expr_values(exprs@));
        },
        Kind::Array(items) => {
            elements_stay(items@, items@.len(), false, held, st);
            assert(element_values(items@).take(items@.len() as int) =~= element_values(items@));
        },
        Kind::Object(props) => {
            props_stay(props@, props@.len(), held, st);
            assert(prop_values(props@).take(props@.len() as int) =~= prop_values(props@));
        },
        Kind::Member { object, .. } => expression_without_this_stays(object, held, st),
        Kind::Index { object, index, .. } => {
            expression_without_this_stays(object, held, st);
            expression_without_this_stays(index, held, after(object, held, st));
        },
        Kind::PrivateMember { object, .. } => expression_without_this_stays(object, held, st),
        Kind::Call { callee, args, .. } => {
            expression_without_this_stays(callee, held, st);
            let (done, mid) = called(callee, held, st);
            let first = is_create(done) && !mid.handled;
            let marked = RewriteV { handled: mid.handled || is_create(done), ..mid };
            elements_stay(args@, args@.len(), first, held, marked);
            assert(element_values(args@).take(args@.len() as int) =~= element_values(args@));
        },
        Kind::Arrow { params, body, .. } => {
            patterns_stay(params@, params@.len(), held, st);
            let mid = patterns_r(params@, params@.len(), held, st);
            stmts_stay(body@, body@.len(), held, mid);
            assert(stmt_values(body@).take(body@.len() as int) =~= stmt_values(body@));
        },
        Kind::Function { params, body, .. } => {
            if st.allow {
                let inside = without_accessor(st);
                patterns_stay(params@, params@.len(), held, inside);
                let mid = patterns_r(params@, params@.len(), held, inside);
                stmts_stay(body@, body@.len(), held, mid);
                assert(stmt_values(body@).take(body@.len() as int) =~= stmt_values(body@));
            }
        },
        Kind::Assign { target, value, .. } => {
            expression_without_this_stays(target, held, st);
            expression_without_this_stays(value, held, after(target, held, st));
        },
        Kind::Unary { argument, .. } => expression_without_this_stays(argument, held, st),
        Kind::Binary { left, right, .. } => {
            expression_without_this_stays(left, held, st);
            expression_without_this_stays(right, held, after(left, held, st));
        },
        Kind::Logical { left, right, .. } => {
            expression_without_this_stays(left, held, st);
            expression_without_this_stays(right, held, after(left, held, st));
        },
        Kind::Conditional { test, consequent, alternate } => {
            expression_without_this_stays(test, held, st);
            let tested = after(test, held, st);
            expression_without_this_stays(consequent, held, tested);
            expression_without_this_stays(alternate, held, after(consequent, held, tested));
        },
        Kind::Sequence(items) => {
            exprs_stay(items@, items@.len(), held, st);
            assert(expr_values(items@).take(items@.len() as int) =~= expr_values(items@));
        },
        Kind::Paren(inner) => expression_without_this_stays(inner, held, st),
        Kind::Chain(inner) => expression_without_this_stays(inner, held, st),
        Kind::Typed { expr, .. } => expression_without_this_stays(expr, held, st),
        _ => {},
    }
}

spec fn called(callee: &Expr, held: Seq<u32>, st: RewriteV) -> (crate::ast::ExprV, RewriteV) {
    expr_r(*callee, held, st)
}

proof fn exprs_stay(items: Seq<Rc<Expr>>, n: nat, held: Seq<u32>, st: RewriteV)
    requires
        n <= items.len(),
    ensures
        steady(st, exprs_r(items, n, held, st).1),
        exprs_r(items, n, held, st).1.alias is None ==> exprs_r(items, n, held, st).0
            == expr_values(items).take(n as int),
    decreases items, n,
{
    if n > 0 {
        exprs_stay(items, (n - 1) as nat, held, st);
        let mid = exprs_r(items, (n - 1) as nat, held, st).1;
        expression_without_this_stays(&items[n - 1], held, mid);
        assert(expr_values(items).take(n as int) =~= expr_values(items).take(n - 1).push(
            expr_values(items)[n - 1],
        ));
    } else {
        assert(expr_values(items).take(0) =~= Seq::empty());
    }
}

proof fn element_stays(item: &Element, held: Seq<u32>, st: RewriteV)
    ensures
        steady(st, element_r(*item, held, st).1),
        element_r(*item, held, st).1.alias is None ==> element_r(*item, held, st).0
            == element_value(*item),
    decreases *item, 0nat,
{
    match item {
        Element::Expr(expr) => expression_without_this_stays(expr, held, st),
        Element::Spread(expr) => expression_without_this_stays(expr, held, st),
        Element::Hole => {},
    }
}

proof fn elements_stay(items: Seq<Element>, n: nat, keep: bool, held: Seq<u32>, st: RewriteV)
    requires
        n <= items.len(),
    ensures
        steady(st, elements_r(items, n, keep, held, st).1),
        elements_r(items, n, keep, held, st).1.alias is None ==> elements_r(
            items,
            n,
            keep,
            held,
            st,
        ).0 == element_values(items).take(n as int),
    decreases items, n,
{
    if n > 0 {
        elements_stay(items, (n - 1) as nat, keep, held, st);
        let mid = elements_r(items, (n - 1) as nat, keep, held, st).1;
        element_stays(&items[n - 1], held, mid);
        assert(element_values(items).take(n as int) =~= element_values(items).take(n - 1).push(
            element_values(items)[n - 1],
        ));
    } else {
        assert(element_values(items).take(0) =~= Seq::empty());
    }
}

proof fn key_stays(key: &Key, held: Seq<u32>, st: RewriteV)
    ensures
        steady(st, key_r(*key, held, st).1),
        key_r(*key, held, st).1.alias is None ==> key_r(*key, held, st).0 == key_value(*key),
    decreases *key, 0nat,
{
    match key {
        Key::Expr(expr) => expression_without_this_stays(expr, held, st),
        _ => {},
    }
}

spec fn after_key(key: &Key, computed: bool, held: Seq<u32>, st: RewriteV) -> RewriteV {
    if computed {
        key_r(*key, held, st).1
    } else {
        st
    }
}

proof fn prop_stays(prop: &Prop, held: Seq<u32>, st: RewriteV)
    ensures
        steady(st, prop_r(*prop, held, st).1),
        prop_r(*prop, held, st).1.alias is None ==> prop_r(*prop, held, st).0 == prop_value(*prop),
    decreases *prop, 0nat,
{
    match prop {
        Prop::Named { span, kind, key, value, method, shorthand, computed } => {
            if *computed {
                key_stays(key, held, st);
            }
            let mid = after_key(key, *computed, held, st);
            expression_without_this_stays(value, held, mid);
            expression_without_this_stays(value, held, RewriteV { allow: true, ..mid });
        },
        Prop::Spread { span, argument } => expression_without_this_stays(argument, held, st),
    }
}

proof fn props_stay(items: Seq<Prop>, n: nat, held: Seq<u32>, st: RewriteV)
    requires
        n <= items.len(),
    ensures
        steady(st, props_r(items, n, held, st).1),
        props_r(items, n, held, st).1.alias is None ==> props_r(items, n, held, st).0
            == prop_values(items).take(n as int),
    decreases items, n,
{
    if n > 0 {
        props_stay(items, (n - 1) as nat, held, st);
        let mid = props_r(items, (n - 1) as nat, held, st).1;
        prop_stays(&items[n - 1], held, mid);
        assert(prop_values(items).take(n as int) =~= prop_values(items).take(n - 1).push(
            prop_values(items)[n - 1],
        ));
    } else {
        assert(prop_values(items).take(0) =~= Seq::empty());
    }
}

proof fn patterns_stay(items: Seq<Pattern>, n: nat, held: Seq<u32>, st: RewriteV)
    ensures
        steady(st, patterns_r(items, n, held, st)),
    decreases n,
{
    if 0 < n <= items.len() {
        patterns_stay(items, (n - 1) as nat, held, st);
    }
}

proof fn option_stays(expr: &Option<Rc<Expr>>, held: Seq<u32>, st: RewriteV)
    ensures
        steady(st, option_r(*expr, held, st).1),
        option_r(*expr, held, st).1.alias is None ==> option_r(*expr, held, st).0 == option_value(
            *expr,
        ),
    decreases *expr, 0nat,
{
    match expr {
        None => {},
        Some(expr) => expression_without_this_stays(expr, held, st),
    }
}

proof fn declarator_stays(item: &Declarator, held: Seq<u32>, st: RewriteV)
    ensures
        steady(st, declarator_r(*item, held, st).1),
        declarator_r(*item, held, st).1.alias is None ==> declarator_r(*item, held, st).0 == (
        DeclaratorV { pattern: item.pattern@, init: option_value(item.init) }),
    decreases *item, 0nat,
{
    option_stays(&item.init, held, pattern_r(item.pattern, held, st));
}

proof fn declarators_stay(items: Seq<Declarator>, n: nat, held: Seq<u32>, st: RewriteV)
    requires
        n <= items.len(),
    ensures
        steady(st, declarators_r(items, n, held, st).1),
        declarators_r(items, n, held, st).1.alias is None ==> declarators_r(items, n, held, st).0
            == declarator_values(items).take(n as int),
    decreases items, n,
{
    if n > 0 {
        declarators_stay(items, (n - 1) as nat, held, st);
        let mid = declarators_r(items, (n - 1) as nat, held, st).1;
        declarator_stays(&items[n - 1], held, mid);
        assert(declarator_values(items).take(n as int) =~= declarator_values(items).take(
            n - 1,
        ).push(declarator_values(items)[n - 1]));
    } else {
        assert(declarator_values(items).take(0) =~= Seq::empty());
    }
}

proof fn stmt_stays(stmt: &Stmt, held: Seq<u32>, st: RewriteV)
    ensures
        steady(st, stmt_r(*stmt, held, st).1),
        stmt_r(*stmt, held, st).1.alias is None ==> stmt_r(*stmt, held, st).0 == stmt_value(*stmt),
    decreases *stmt, 0nat,
{
    match stmt {
        Stmt::Expr(expr) => expression_without_this_stays(expr, held, st),
        Stmt::Return(expr) => option_stays(expr, held, st),
        Stmt::Var { kind, declarators } => {
            declarators_stay(declarators@, declarators@.len(), held, st);
            assert(declarator_values(declarators@).take(declarators@.len() as int)
                =~= declarator_values(declarators@));
        },
        Stmt::Block(body) => {
            stmts_stay(body@, body@.len(), held, st);
            assert(stmt_values(body@).take(body@.len() as int) =~= stmt_values(body@));
        },
        Stmt::If { test, consequent, alternate } => {
            expression_without_this_stays(test, held, st);
            let tested = after(test, held, st);
            stmt_stays(consequent, held, tested);
            match alternate {
                None => {},
                Some(alternate) => stmt_stays(
                    alternate,
                    held,
                    after_stmt(consequent, held, tested),
                ),
            }
        },
        Stmt::Function { name, function, body } => {
            if st.allow {
                let inside = without_accessor(st).past(*function, held);
                stmts_stay(body@, body@.len(), held, inside);
                assert(stmt_values(body@).take(body@.len() as int) =~= stmt_values(body@));
            }
        },
        Stmt::Opaque(_) => {},
    }
}

proof fn stmts_stay(items: Seq<Stmt>, n: nat, held: Seq<u32>, st: RewriteV)
    requires
        n <= items.len(),
    ensures
        steady(st, stmts_r(items, n, held, st).1),
        stmts_r(items, n, held, st).1.alias is None ==> stmts_r(items, n, held, st).0
            == stmt_values(items).take(n as int),
    decreases items, n,
{
    if n > 0 {
        stmts_stay(items, (n - 1) as nat, held, st);
        let mid = stmts_r(items, (n - 1) as nat, held, st).1;
        stmt_stays(&items[n - 1], held, mid);
        assert(stmt_values(items).take(n as int) =~= stmt_values(items).take(n - 1).push(
            stmt_values(items)[n - 1],
        ));
    } else {
        assert(stmt_values(items).take(0) =~= Seq::empty());
    }
}

} // verus!
