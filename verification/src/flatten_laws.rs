//! To flatten every list of a file is to flatten a list and to go into its
//! statements.

use crate::ast::{
    declarator_values, expr_value, option_value, stmt_value, stmt_values, Declarator, DeclaratorV,
    Expr, ExprV, Kind, Stmt, StmtV,
};
use crate::flatten::{flat_declarators, flat_stmt, flat_stmts, iife_parts};
use crate::flatten_all::{
    arrow_call_value, declarator_w, declarators_f, declarators_w, expr_w, list_f, opened,
    opened_option, option_w, stmt_f, stmt_w, stmts_w,
};
use std::rc::Rc;
use vstd::prelude::*;

verus! {

proof fn stmts_at(items: Seq<StmtV>, n: nat)
    requires
        n <= items.len(),
    ensures
        stmts_w(items, n).len() == n,
        forall|i: int| 0 <= i < n ==> (#[trigger] stmts_w(items, n)[i]) == stmt_w(items[i]),
    decreases n,
{
    if n > 0 {
        stmts_at(items, (n - 1) as nat);
    }
}

proof fn stmts_join(left: Seq<StmtV>, right: Seq<StmtV>)
    ensures
        stmts_w(left + right, (left + right).len()) == stmts_w(left, left.len()) + stmts_w(
            right,
            right.len(),
        ),
{
    stmts_at(left + right, (left + right).len());
    stmts_at(left, left.len());
    stmts_at(right, right.len());
    assert(stmts_w(left + right, (left + right).len()) =~= stmts_w(left, left.len()) + stmts_w(
        right,
        right.len(),
    ));
}

proof fn stmts_less_last(items: Seq<StmtV>)
    requires
        items.len() > 0,
    ensures
        stmts_w(items.drop_last(), (items.len() - 1) as nat) == stmts_w(
            items,
            (items.len() - 1) as nat,
        ),
{
    let n = (items.len() - 1) as nat;
    stmts_at(items.drop_last(), n);
    stmts_at(items, n);
    assert(stmts_w(items.drop_last(), n) =~= stmts_w(items, n));
}

spec fn parts_of(expr: &Expr) -> Option<(Seq<StmtV>, ExprV)> {
    iife_parts(*expr)
}

proof fn value_goes_in(expr: &Expr)
    ensures
        opened(expr_value(*expr)) == (match iife_parts(*expr) {
            Some((front, value)) => (stmts_w(front, front.len()), expr_w(value)),
            None => (Seq::<StmtV>::empty(), expr_w(expr_value(*expr))),
        }),
{
    arrow_call_value(expr);
    match &expr.kind {
        Kind::Call { callee, args, .. } => {
            arrow_call_value(callee);
            match &callee.kind {
                Kind::Arrow { params, expression, body, .. } => {
                    if body@.len() > 0 {
                        let last = body@[body@.len() - 1];
                        assert(stmt_values(body@)[body@.len() - 1] == stmt_value(last));
                        match &last {
                            Stmt::Return(Some(value)) => {
                                assert(option_value(Some(*value)) == Some(expr_value(**value)));
                                assert(stmt_value(last) == StmtV::Return(
                                    Some(expr_value(**value)),
                                ));
                            },
                            _ => {},
                        }
                        stmts_less_last(stmt_values(body@));
                    }
                },
                _ => {},
            }
        },
        _ => {},
    }
}

proof fn option_goes_in(expr: &Option<Rc<Expr>>)
    ensures
        opened_option(option_value(*expr)) == (match *expr {
            None => (Seq::<StmtV>::empty(), None),
            Some(expr) => {
                let (front, value) = opened(expr_value(*expr));
                (front, Some(value))
            },
        }),
{
    match expr {
        None => {},
        Some(expr) => {
            assert(option_value(Some(*expr)) == Some(expr_value(**expr)));
        },
    }
}

/// The statements in front of a declarator, and the declarator without them.
spec fn flat_one(item: Declarator) -> (Seq<StmtV>, DeclaratorV) {
    match item.init {
        Some(init) => match iife_parts(*init) {
            Some((prefix, value)) => (
                prefix,
                DeclaratorV { pattern: item.pattern@, init: Some(value) },
            ),
            None => (
                Seq::empty(),
                DeclaratorV { pattern: item.pattern@, init: option_value(item.init) },
            ),
        },
        None => (
            Seq::empty(),
            DeclaratorV { pattern: item.pattern@, init: option_value(item.init) },
        ),
    }
}

proof fn flat_declarators_step(items: Seq<Declarator>, n: nat)
    requires
        0 < n <= items.len(),
    ensures
        ({
            let (front, done) = flat_declarators(items, (n - 1) as nat);
            let (more, item) = flat_one(items[n - 1]);
            flat_declarators(items, n) == (front + more, done.push(item))
        }),
{
    let front = flat_declarators(items, (n - 1) as nat).0;
    assert(front + Seq::<StmtV>::empty() =~= front);
}

proof fn declarator_goes_in(item: &Declarator)
    ensures
        ({
            let (more, done) = flat_one(*item);
            opened_option(option_value(item.init)) == (stmts_w(more, more.len()), option_w(done.init))
        }),
{
    option_goes_in(&item.init);
    match &item.init {
        None => {},
        Some(init) => {
            value_goes_in(init);
            assert(option_value(Some(*init)) == Some(expr_value(**init)));
        },
    }
}

proof fn declarators_go_in(items: Seq<Declarator>, n: nat)
    requires
        n <= items.len(),
    ensures
        flat_declarators(items, n).1.len() == n,
        declarators_f(declarator_values(items), n).0 == stmts_w(
            flat_declarators(items, n).0,
            flat_declarators(items, n).0.len(),
        ),
        declarators_f(declarator_values(items), n).1 == declarators_w(
            flat_declarators(items, n).1,
            n,
        ),
    decreases n,
{
    if n > 0 {
        declarators_go_in(items, (n - 1) as nat);
        flat_declarators_step(items, n);
        let (front, done) = flat_declarators(items, (n - 1) as nat);
        let (more, item) = flat_one(items[n - 1]);
        let last = declarator_values(items)[n - 1];
        assert(last.init == option_value(items[n - 1].init));
        assert(last.pattern == item.pattern);
        declarator_goes_in(&items[n - 1]);
        stmts_join(front, more);
        declarators_prefix(done, item, (n - 1) as nat);
        assert(done.push(item)[n - 1] == item);
        assert(declarator_w(item) == (DeclaratorV {
            pattern: item.pattern,
            init: option_w(item.init),
        }));
    }
}

proof fn declarators_prefix(items: Seq<DeclaratorV>, item: DeclaratorV, n: nat)
    requires
        n <= items.len(),
    ensures
        declarators_w(items.push(item), n) == declarators_w(items, n),
    decreases n,
{
    if n > 0 {
        declarators_prefix(items, item, (n - 1) as nat);
    }
}

proof fn return_goes_in(value: &Rc<Expr>)
    ensures
        ({
            let (front, done) = match iife_parts(**value) {
                Some((front, done)) => (front, done),
                None => (Seq::<StmtV>::empty(), expr_value(**value)),
            };
            opened_option(Some(expr_value(**value))) == (
                stmts_w(front, front.len()),
                option_w(Some(done)),
            )
        }),
{
    option_goes_in(&Some(*value));
    value_goes_in(value);
    assert(option_value(Some(*value)) == Some(expr_value(**value)));
}

proof fn stmts_push(front: Seq<StmtV>, last: StmtV)
    ensures
        stmts_w(front.push(last), front.len() + 1) == stmts_w(front, front.len()).push(
            stmt_w(last),
        ),
{
    stmts_at(front.push(last), front.len() + 1);
    stmts_at(front, front.len());
    assert(stmts_w(front.push(last), front.len() + 1) =~= stmts_w(front, front.len()).push(
        stmt_w(last),
    ));
}

spec fn value_of(stmt: &Stmt) -> StmtV {
    stmt_value(*stmt)
}

proof fn statement_goes_in(stmt: &Stmt)
    ensures
        stmt_f(stmt_value(*stmt)) == stmts_w(flat_stmt(*stmt), flat_stmt(*stmt).len()),
{
    let flat = flat_stmt(*stmt);
    match stmt {
        Stmt::Return(Some(value)) => {
            return_goes_in(value);
            assert(option_value(Some(*value)) == Some(expr_value(**value)));
            assert(stmt_value(*stmt) == StmtV::Return(Some(expr_value(**value))));
            match parts_of(value) {
                Some((front, done)) => {
                    stmts_push(front, StmtV::Return(Some(done)));
                },
                None => {
                    stmts_push(Seq::empty(), value_of(stmt));
                    assert(flat =~= Seq::empty().push(StmtV::Return(Some(expr_value(**value)))));
                },
            }
        },
        Stmt::Var { kind, declarators } => {
            let items = declarators@;
            declarators_go_in(items, items.len());
            let (front, done) = flat_declarators(items, items.len());
            stmts_push(front, StmtV::Var { kind: *kind, declarators: done });
        },
        _ => {
            stmts_push(Seq::empty(), value_of(stmt));
            assert(flat =~= Seq::empty().push(stmt_value(*stmt)));
            assert(stmts_w(Seq::empty(), 0) =~= Seq::<StmtV>::empty());
            assert(seq![stmt_w(stmt_value(*stmt))] =~= Seq::empty().push(
                stmt_w(stmt_value(*stmt)),
            ));
        },
    }
}

/// To flatten a list and every list below it is to flatten the list, and then
/// to go into each of its statements.
pub proof fn flattening_goes_in(stmts: Seq<Stmt>, n: nat)
    requires
        n <= stmts.len(),
    ensures
        list_f(stmt_values(stmts), n) == stmts_w(flat_stmts(stmts, n), flat_stmts(stmts, n).len()),
    decreases n,
{
    if n > 0 {
        flattening_goes_in(stmts, (n - 1) as nat);
        statement_goes_in(&stmts[n - 1]);
        stmts_join(flat_stmts(stmts, (n - 1) as nat), flat_stmt(stmts[n - 1]));
    }
}

} // verus!
