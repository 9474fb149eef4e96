//! Functions that are called where they stand, as what a statement returns or
//! what a variable begins with: their statements go in front.

use crate::ast::{
    declarator_values, expr_value, group_values, option_value, stmt_value, stmt_values, Declarator,
    DeclaratorV, Expr, ExprV, Kind, Stmt, StmtV,
};
use crate::copy::{copied_expr_option, copied_pattern, copied_stmt};
use crate::outside::share;
use std::rc::Rc;
use vstd::prelude::*;

verus! {

broadcast use group_values;

/// The statements of `(() => { ..; return expr; })()`, and what it returns.
pub open spec fn iife_parts(expr: Expr) -> Option<(Seq<StmtV>, ExprV)> {
    match expr.kind {
        Kind::Call { callee, args, .. } => if args@.len() == 0 {
            match callee.kind {
                Kind::Arrow { params, expression, body, .. } => if !expression && params@.len() == 0
                    && body@.len() > 0 {
                    match body@.last() {
                        Stmt::Return(Some(value)) => Some(
                            (stmt_values(body@).drop_last(), expr_value(*value)),
                        ),
                        _ => None,
                    }
                } else {
                    None
                },
                _ => None,
            }
        } else {
            None
        },
        _ => None,
    }
}

/// The parts of `(() => { ..; return expr; })()`.
pub fn extract_statement_position_iife(expr: &Expr) -> (parts: Option<(Vec<Stmt>, Rc<Expr>)>)
    ensures
        match parts {
            Some((prefix, value)) => iife_parts(*expr) == Some(
                (stmt_values(prefix@), expr_value(*value)),
            ),
            None => iife_parts(*expr) is None,
        },
{
    match &expr.kind {
        Kind::Call { callee, args, .. } => {
            if args.len() != 0 {
                return None;
            }
            match &callee.kind {
                Kind::Arrow { params, expression, body, .. } => {
                    if *expression || params.len() != 0 || body.len() == 0 {
                        return None;
                    }
                    match &body[body.len() - 1] {
                        Stmt::Return(Some(value)) => {
                            let prefix = leading(body, body.len() - 1);
                            proof {
                                assert(stmt_values(body@).drop_last() =~= stmt_values(
                                    body@,
                                ).take(body@.len() - 1));
                            }
                            Some((prefix, share(value)))
                        },
                        _ => None,
                    }
                },
                _ => None,
            }
        },
        _ => None,
    }
}

/// Copies of the first `n` statements.
fn leading(body: &Vec<Stmt>, n: usize) -> (copies: Vec<Stmt>)
    requires
        n <= body@.len(),
    ensures
        stmt_values(copies@) == stmt_values(body@).take(n as int),
{
    let mut copies: Vec<Stmt> = Vec::new();
    let mut i: usize = 0;
    proof {
        assert(stmt_values(copies@) =~= stmt_values(body@).take(0));
    }
    while i < n
        invariant
            i <= n <= body@.len(),
            stmt_values(copies@) == stmt_values(body@).take(i as int),
        decreases n - i,
    {
        copies.push(copied_stmt(&body[i]));
        i = i + 1;
        proof {
            assert(stmt_values(copies@) =~= stmt_values(body@).take(i as int));
        }
    }
    copies
}

/// The statements that go in front of the first `n` declarators, and the
/// declarators without them.
pub open spec fn flat_declarators(declarators: Seq<Declarator>, n: nat) -> (
    Seq<StmtV>,
    Seq<DeclaratorV>,
)
    decreases n,
{
    if n == 0 {
        (Seq::empty(), Seq::empty())
    } else {
        let (front, done) = flat_declarators(declarators, (n - 1) as nat);
        let last = declarators[n - 1];
        match last.init {
            Some(init) => match iife_parts(*init) {
                Some((prefix, value)) => (
                    front + prefix,
                    done.push(DeclaratorV { pattern: last.pattern@, init: Some(value) }),
                ),
                None => (
                    front,
                    done.push(
                        DeclaratorV { pattern: last.pattern@, init: option_value(last.init) },
                    ),
                ),
            },
            None => (
                front,
                done.push(DeclaratorV { pattern: last.pattern@, init: option_value(last.init) }),
            ),
        }
    }
}

/// What a statement becomes: the statements that go in front of it, and it.
pub open spec fn flat_stmt(stmt: Stmt) -> Seq<StmtV> {
    match stmt {
        Stmt::Return(Some(value)) => match iife_parts(*value) {
            Some((prefix, value)) => prefix.push(StmtV::Return(Some(value))),
            None => seq![stmt_value(stmt)],
        },
        Stmt::Var { kind, declarators } => {
            let (front, declarators) = flat_declarators(declarators@, declarators@.len());
            front.push(StmtV::Var { kind, declarators })
        },
        _ => seq![stmt_value(stmt)],
    }
}

/// What the first `n` statements become.
pub open spec fn flat_stmts(stmts: Seq<Stmt>, n: nat) -> Seq<StmtV>
    decreases n,
{
    if n == 0 {
        Seq::empty()
    } else {
        flat_stmts(stmts, (n - 1) as nat) + flat_stmt(stmts[n - 1])
    }
}

proof fn stmt_values_join(left: Seq<Stmt>, right: Seq<Stmt>)
    ensures
        stmt_values(left + right) == stmt_values(left) + stmt_values(right),
{
    assert(stmt_values(left + right) =~= stmt_values(left) + stmt_values(right));
}

/// Adds what a declaration of variables becomes.
fn flatten_declarators(declarators: &Vec<Declarator>, flattened: &mut Vec<Stmt>) -> (done: Vec<
    Declarator,
>)
    ensures
        ({
            let (front, left) = flat_declarators(declarators@, declarators@.len());
            &&& stmt_values(final(flattened)@) == stmt_values(old(flattened)@) + front
            &&& declarator_values(done@) == left
        }),
{
    let mut done: Vec<Declarator> = Vec::new();
    let mut i: usize = 0;
    proof {
        assert(stmt_values(flattened@) + Seq::<StmtV>::empty() =~= stmt_values(flattened@));
    }
    while i < declarators.len()
        invariant
            i <= declarators@.len(),
            stmt_values(flattened@) == stmt_values(old(flattened)@) + flat_declarators(
                declarators@,
                i as nat,
            ).0,
            declarator_values(done@) == flat_declarators(declarators@, i as nat).1,
        decreases declarators@.len() - i,
    {
        let declarator = &declarators[i];
        let pattern = copied_pattern(&declarator.pattern);
        let parts = match &declarator.init {
            None => None,
            Some(init) => extract_statement_position_iife(init),
        };
        let ghost earlier = flat_declarators(declarators@, i as nat).0;
        match parts {
            None => {
                done.push(Declarator { pattern, init: copied_expr_option(&declarator.init) });
            },
            Some((prefix, value)) => {
                let mut prefix = prefix;
                let ghost front = prefix@;
                let ghost before = flattened@;
                flattened.append(&mut prefix);
                proof {
                    stmt_values_join(before, front);
                    assert(stmt_values(flattened@) =~= stmt_values(old(flattened)@) + (earlier
                        + stmt_values(front)));
                }
                let ghost added = Declarator { pattern, init: Some(value) };
                proof {
                    assert(option_value(added.init) == Some(expr_value(*value)));
                }
                done.push(Declarator { pattern, init: Some(value) });
            },
        }
        i = i + 1;
    }
    done
}

/// Moves the statements of functions that are called where they stand in front
/// of the statements that call them.
pub fn flatten_statement_position_iifes_in_list(statements: &Vec<Stmt>) -> (flattened: Vec<Stmt>)
    ensures
        stmt_values(flattened@) == flat_stmts(statements@, statements@.len()),
{
    let mut flattened: Vec<Stmt> = Vec::new();
    let mut i: usize = 0;
    while i < statements.len()
        invariant
            i <= statements@.len(),
            stmt_values(flattened@) == flat_stmts(statements@, i as nat),
        decreases statements@.len() - i,
    {
        let ghost before = stmt_values(flattened@);
        let stmt = &statements[i];
        match stmt {
            Stmt::Return(Some(value)) => match extract_statement_position_iife(value) {
                Some((prefix, value)) => {
                    let mut prefix = prefix;
                    let ghost front = prefix@;
                    let ghost earlier = flattened@;
                    flattened.append(&mut prefix);
                    proof {
                        stmt_values_join(earlier, front);
                        assert(option_value(Some(value)) == Some(expr_value(*value)));
                    }
                    flattened.push(Stmt::Return(Some(value)));
                },
                None => {
                    flattened.push(copied_stmt(stmt));
                },
            },
            Stmt::Var { kind, declarators } => {
                let declarators = flatten_declarators(declarators, &mut flattened);
                flattened.push(Stmt::Var { kind: *kind, declarators });
            },
            _ => {
                flattened.push(copied_stmt(stmt));
            },
        }
        proof {
            assert(stmt_values(flattened@) =~= before + flat_stmt(statements@[i as int]));
        }
        i = i + 1;
    }
    flattened
}

proof fn flat_grows(stmts: Seq<Stmt>, n: nat)
    ensures
        flat_stmts(stmts, n).len() >= n,
    decreases n,
{
    if n > 0 {
        flat_grows(stmts, (n - 1) as nat);
    }
}

/// No statement is lost: there are at least as many behind as before.
pub proof fn flattening_keeps_statements(stmts: Seq<Stmt>)
    ensures
        flat_stmts(stmts, stmts.len()).len() >= stmts.len(),
{
    flat_grows(stmts, stmts.len());
}

} // verus!
