//! The members of a class in which components are made: `this` is bound to a
//! name in front of each.

use crate::ast::{
    declarator_values, expr_value, group_values, no_span, nowhere, option_text, option_value,
    pattern_values, stmt_value, stmt_values, Declarator, DeclaratorV, Expr, ExprV, Kind, KindV,
    Pattern, PatternV, Stmt, StmtV, VarKind,
};
use crate::capture::{
    expr_r, is_root_create, is_root_create_component_expr, rewrite_expr, Rewrite, RewriteV,
};
use crate::copy::{copied_facts, copied_patterns, copied_stmt, copied_text};
use crate::make::{arrow, arrow_v, call0, call_v, copied, node_v, unknown};
use crate::outside::share;
use std::rc::Rc;
use vstd::prelude::*;

verus! {

broadcast use group_values;

/// A member of a class: a method with its body, a field with its value, or one
/// that is carried along.
#[derive(Debug)]
pub enum ClassMember {
    Method(Option<Vec<Stmt>>),
    Property(Option<Rc<Expr>>),
    Opaque(u32),
}

/// The value of a `ClassMember`.
pub ghost enum ClassMemberV {
    Method(Option<Seq<StmtV>>),
    Property(Option<ExprV>),
    Opaque(u32),
}

impl View for ClassMember {
    type V = ClassMemberV;

    open spec fn view(&self) -> ClassMemberV {
        match *self {
            ClassMember::Method(None) => ClassMemberV::Method(None),
            ClassMember::Method(Some(body)) => ClassMemberV::Method(Some(stmt_values(body@))),
            ClassMember::Property(value) => ClassMemberV::Property(option_value(value)),
            ClassMember::Opaque(id) => ClassMemberV::Opaque(id),
        }
    }
}

pub open spec fn member_values(items: Seq<ClassMember>) -> Seq<ClassMemberV> {
    items.map_values(|item: ClassMember| item@)
}

impl RewriteV {
    /// Before an expression of its own.
    pub open spec fn fresh(self) -> RewriteV {
        RewriteV { alias: None, handled: false, allow: false, ..self }
    }
}

/// `const name = this`.
pub open spec fn this_alias_v(name: Seq<char>) -> StmtV {
    StmtV::Var {
        kind: VarKind::Const,
        declarators: Seq::empty().push(
            DeclaratorV {
                pattern: PatternV::Ident(name),
                init: Some(node_v(no_span(), KindV::This)),
            },
        ),
    }
}

/// The statement in front of an expression in which `this` was replaced.
pub open spec fn alias_stmts(alias: Option<Seq<char>>) -> Seq<StmtV> {
    match alias {
        Some(name) => Seq::empty().push(this_alias_v(name)),
        None => Seq::empty(),
    }
}

/// `(() => { const name = this; return expr; })()`.
pub open spec fn this_iife_v(expr: ExprV, name: Seq<char>) -> ExprV {
    call_v(
        no_span(),
        arrow_v(
            no_span(),
            Seq::empty(),
            false,
            Seq::empty().push(this_alias_v(name)).push(StmtV::Return(Some(expr))),
        ),
        Seq::empty(),
    )
}

/// What a statement becomes: perhaps a binding of `this`, and the statement.
pub open spec fn caught_stmt(stmt: Stmt, held: Seq<u32>, st: RewriteV) -> (Seq<StmtV>, RewriteV)
    decreases stmt, 0nat,
{
    match stmt {
        Stmt::Expr(expr) => if is_root_create(expr_value(*expr)) {
            let (done, st) = expr_r(*expr, held, st.fresh());
            (alias_stmts(st.alias).push(StmtV::Expr(done)), st)
        } else {
            (Seq::empty().push(stmt_value(stmt)), st)
        },
        Stmt::Return(Some(expr)) => if is_root_create(expr_value(*expr)) {
            let (done, st) = expr_r(*expr, held, st.fresh());
            (alias_stmts(st.alias).push(StmtV::Return(Some(done))), st)
        } else {
            (Seq::empty().push(stmt_value(stmt)), st)
        },
        Stmt::Block(body) => {
            let (body, st) = caught(body@, body@.len(), held, st);
            (Seq::empty().push(StmtV::Block(body)), st)
        },
        _ => (Seq::empty().push(stmt_value(stmt)), st),
    }
}

/// What the first `n` statements become.
pub open spec fn caught(stmts: Seq<Stmt>, n: nat, held: Seq<u32>, st: RewriteV) -> (
    Seq<StmtV>,
    RewriteV,
)
    decreases stmts, n,
{
    if n == 0 || n > stmts.len() {
        (Seq::empty(), st)
    } else {
        let (before, st) = caught(stmts, (n - 1) as nat, held, st);
        let (here, st) = caught_stmt(stmts[n - 1], held, st);
        (before + here, st)
    }
}

/// What the body of an arrow function becomes, and whether it is still an
/// expression.
pub open spec fn arrow_caught(expression: bool, body: Seq<Stmt>, held: Seq<u32>, st: RewriteV) -> (
    bool,
    Seq<StmtV>,
    RewriteV,
) {
    if !expression {
        let (body, st) = caught(body, body.len(), held, st);
        (false, body, st)
    } else if body.len() > 0 {
        match body[0] {
            Stmt::Expr(expr) => if is_root_create(expr_value(*expr)) {
                let (done, st) = expr_r(*expr, held, st.fresh());
                match st.alias {
                    Some(name) => (
                        false,
                        Seq::empty().push(this_alias_v(name)).push(StmtV::Return(Some(done))),
                        st,
                    ),
                    None => (true, stmt_values(body).update(0, StmtV::Expr(done)), st),
                }
            } else {
                (true, stmt_values(body), st)
            },
            _ => (true, stmt_values(body), st),
        }
    } else {
        (true, stmt_values(body), st)
    }
}

/// What the value of a field becomes, inside the brackets and type annotations
/// round it.
pub open spec fn property_caught(expr: Expr, held: Seq<u32>, st: RewriteV) -> (ExprV, RewriteV)
    decreases expr,
{
    match expr.kind {
        Kind::Paren(inner) => {
            let (inner, st) = property_caught(*inner, held, st);
            (
                ExprV {
                    span: expr.span,
                    facts: expr.facts,
                    kind: KindV::Paren(Box::new(inner)),
                },
                st,
            )
        },
        Kind::Typed { wrapper, expr: inner } => {
            let (inner, st) = property_caught(*inner, held, st);
            (
                ExprV {
                    span: expr.span,
                    facts: expr.facts,
                    kind: KindV::Typed { wrapper, expr: Box::new(inner) },
                },
                st,
            )
        },
        Kind::Arrow { is_async, params, expression, body } => {
            let (expression, body, st) = arrow_caught(expression, body@, held, st);
            (
                ExprV {
                    span: expr.span,
                    facts: expr.facts,
                    kind: KindV::Arrow {
                        is_async,
                        params: pattern_values(params@),
                        expression,
                        body,
                    },
                },
                st,
            )
        },
        Kind::Function { is_async, generator, name, params, body } => {
            let (body, st) = caught(body@, body@.len(), held, st);
            (
                ExprV {
                    span: expr.span,
                    facts: expr.facts,
                    kind: KindV::Function {
                        is_async,
                        generator,
                        name: option_text(name),
                        params: pattern_values(params@),
                        body,
                    },
                },
                st,
            )
        },
        _ => if is_root_create(expr_value(expr)) {
            let (done, st) = expr_r(expr, held, st.fresh());
            match st.alias {
                Some(name) => (this_iife_v(done, name), st),
                None => (done, st),
            }
        } else {
            (expr_value(expr), st)
        },
    }
}

/// What a member becomes.
pub open spec fn member_caught(member: ClassMember, held: Seq<u32>, st: RewriteV) -> (
    ClassMemberV,
    RewriteV,
) {
    match member {
        ClassMember::Method(Some(body)) => {
            let (body, st) = caught(body@, body@.len(), held, st);
            (ClassMemberV::Method(Some(body)), st)
        },
        ClassMember::Property(Some(value)) => {
            let (value, st) = property_caught(*value, held, st);
            (ClassMemberV::Property(Some(value)), st)
        },
        _ => (member@, st),
    }
}

/// What the first `n` members become.
pub open spec fn members_caught(
    members: Seq<ClassMember>,
    n: nat,
    held: Seq<u32>,
    st: RewriteV,
) -> (Seq<ClassMemberV>, RewriteV)
    decreases n,
{
    if n == 0 {
        (Seq::empty(), st)
    } else {
        let (before, st) = members_caught(members, (n - 1) as nat, held, st);
        let (member, st) = member_caught(members[n - 1], held, st);
        (before.push(member), st)
    }
}

// ---------------------------------------------------------------------------
// Code
// ---------------------------------------------------------------------------

/// `const alias = this`.
pub fn this_alias_declaration_statement(alias: &str) -> (stmt: Stmt)
    ensures
        stmt_value(stmt) == this_alias_v(alias@),
{
    let this = Rc::new(Expr { span: nowhere(), facts: unknown(), kind: Kind::This });
    let declarator = Declarator { pattern: Pattern::Ident(copied(alias)), init: Some(this) };
    proof {
        assert(expr_value(*this) == node_v(no_span(), KindV::This));
        assert(option_value(declarator.init) == Some(expr_value(*this)));
    }
    let mut declarators: Vec<Declarator> = Vec::new();
    declarators.push(declarator);
    proof {
        assert(declarator_values(declarators@) == Seq::empty().push(
            DeclaratorV {
                pattern: PatternV::Ident(alias@),
                init: Some(node_v(no_span(), KindV::This)),
            },
        ));
    }
    Stmt::Var { kind: VarKind::Const, declarators }
}

/// `const alias = this; return expr;`.
fn aliased_return(expr: Rc<Expr>, alias: &str) -> (body: Vec<Stmt>)
    ensures
        stmt_values(body@) == Seq::empty().push(this_alias_v(alias@)).push(
            StmtV::Return(Some(expr_value(*expr))),
        ),
{
    let mut body: Vec<Stmt> = Vec::new();
    body.push(this_alias_declaration_statement(alias));
    let value = Some(expr);
    proof {
        assert(option_value(value) == Some(expr_value(*expr)));
    }
    body.push(Stmt::Return(value));
    body
}

/// `(() => { const alias = this; return expr; })()`.
pub fn wrap_expr_with_this_alias_iife(expr: Rc<Expr>, alias: &str) -> (call: Rc<Expr>)
    ensures
        expr_value(*call) == this_iife_v(expr_value(*expr), alias@),
{
    let body = aliased_return(expr, alias);
    let params: Vec<Pattern> = Vec::new();
    let function = arrow(nowhere(), params, false, body);
    proof {
        assert(pattern_values(params@) =~= Seq::<PatternV>::empty());
    }
    call0(nowhere(), function)
}

/// Replaces `this` in an expression of its own; gives the name for it, if there
/// was one.
pub fn rewrite_component_expr_this_capture(
    expr: &Rc<Expr>,
    held: &Vec<u32>,
    st: &mut Rewrite,
) -> (done: (Rc<Expr>, Option<String>))
    ensures
        (expr_value(*done.0), final(st)@) == expr_r(**expr, held@, old(st)@.fresh()),
        option_text(done.1) == final(st)@.alias,
{
    st.alias = None;
    st.handled = false;
    st.allow = false;
    let rewritten = rewrite_expr(expr, held, st);
    let alias = copied_text(&st.alias);
    (rewritten, alias)
}

/// Adds the binding of `this`, where there is a name for it.
fn push_alias(list: &mut Vec<Stmt>, alias: &Option<String>)
    ensures
        stmt_values(final(list)@) == stmt_values(old(list)@) + alias_stmts(option_text(*alias)),
{
    if let Some(alias) = alias {
        list.push(this_alias_declaration_statement(alias.as_str()));
    }
    proof {
        assert(stmt_values(list@) =~= stmt_values(old(list)@) + alias_stmts(option_text(*alias)));
    }
}

/// Adds what a statement becomes.
fn capture_this_in_statement(stmt: &Stmt, held: &Vec<u32>, st: &mut Rewrite, list: &mut Vec<Stmt>)
    ensures
        ({
            let (here, after) = caught_stmt(*stmt, held@, old(st)@);
            &&& stmt_values(final(list)@) == stmt_values(old(list)@) + here
            &&& final(st)@ == after
        }),
    decreases *stmt, 0nat,
{
    let ghost here = caught_stmt(*stmt, held@, st@).0;
    match stmt {
        Stmt::Expr(expr) => {
            if is_root_create_component_expr(expr) {
                let (done, alias) = rewrite_component_expr_this_capture(expr, held, st);
                push_alias(list, &alias);
                list.push(Stmt::Expr(done));
            } else {
                list.push(copied_stmt(stmt));
            }
        },
        Stmt::Return(Some(expr)) => {
            if is_root_create_component_expr(expr) {
                let (done, alias) = rewrite_component_expr_this_capture(expr, held, st);
                push_alias(list, &alias);
                let value = Some(done);
                proof {
                    assert(option_value(value) == Some(expr_value(*done)));
                }
                list.push(Stmt::Return(value));
            } else {
                list.push(copied_stmt(stmt));
            }
        },
        Stmt::Block(body) => {
            let body = capture_this_in_statement_list(body, held, st);
            list.push(Stmt::Block(body));
        },
        _ => {
            list.push(copied_stmt(stmt));
        },
    }
    proof {
        assert(stmt_values(list@) =~= stmt_values(old(list)@) + here);
    }
}

/// Binds `this` in front of the statements that make a component.
pub fn capture_this_in_statement_list(statements: &Vec<Stmt>, held: &Vec<u32>, st: &mut Rewrite) -> (
    list: Vec<Stmt>)
    ensures
        (stmt_values(list@), final(st)@) == caught(
            statements@,
            statements@.len(),
            held@,
            old(st)@,
        ),
    decreases statements, 1nat,
{
    let mut list: Vec<Stmt> = Vec::new();
    let mut i: usize = 0;
    while i < statements.len()
        invariant
            i <= statements@.len(),
            (stmt_values(list@), st@) == caught(statements@, i as nat, held@, old(st)@),
        decreases statements@.len() - i,
    {
        capture_this_in_statement(&statements[i], held, st, &mut list);
        i = i + 1;
    }
    list
}

/// Binds `this` in an arrow function that is the value of a field; gives
/// whether it is still an expression, and its body.
pub fn process_arrow_property_value(
    expression: bool,
    body: &Vec<Stmt>,
    held: &Vec<u32>,
    st: &mut Rewrite,
) -> (done: (bool, Vec<Stmt>))
    ensures
        (done.0, stmt_values(done.1@), final(st)@) == arrow_caught(
            expression,
            body@,
            held@,
            old(st)@,
        ),
{
    if !expression {
        let list = capture_this_in_statement_list(body, held, st);
        return (false, list);
    }
    if body.len() > 0 {
        if let Stmt::Expr(expr) = &body[0] {
            if is_root_create_component_expr(expr) {
                let (done, alias) = rewrite_component_expr_this_capture(expr, held, st);
                match alias {
                    Some(alias) => {
                        return (false, aliased_return(done, alias.as_str()));
                    },
                    None => {
                        let mut list: Vec<Stmt> = Vec::new();
                        list.push(Stmt::Expr(done));
                        push_rest(&mut list, body);
                        proof {
                            assert(stmt_values(list@) =~= stmt_values(body@).update(
                                0,
                                StmtV::Expr(expr_value(*done)),
                            ));
                        }
                        return (true, list);
                    },
                }
            }
        }
    }
    (true, crate::copy::copied_stmts(body))
}

/// Adds the statements behind the first.
fn push_rest(list: &mut Vec<Stmt>, body: &Vec<Stmt>)
    requires
        old(list)@.len() == 1,
        body@.len() > 0,
    ensures
        final(list)@.len() == body@.len(),
        final(list)@[0] == old(list)@[0],
        forall|k: int|
            1 <= k < body@.len() ==> stmt_value(#[trigger] final(list)@[k]) == stmt_value(body@[k]),
{
    let mut i: usize = 1;
    while i < body.len()
        invariant
            1 <= i <= body@.len(),
            list@.len() == i,
            list@[0] == old(list)@[0],
            forall|k: int|
                1 <= k < i ==> stmt_value(#[trigger] list@[k]) == stmt_value(body@[k]),
        decreases body@.len() - i,
    {
        list.push(copied_stmt(&body[i]));
        i = i + 1;
    }
}

/// Binds `this` in the value of a field.
pub fn process_class_property_value(value: &Rc<Expr>, held: &Vec<u32>, st: &mut Rewrite) -> (done:
    Rc<Expr>)
    ensures
        (expr_value(*done), final(st)@) == property_caught(**value, held@, old(st)@),
    decreases **value,
{
    let kind = match &value.kind {
        Kind::Paren(inner) => {
            let inner = process_class_property_value(inner, held, st);
            Kind::Paren(inner)
        },
        Kind::Typed { wrapper, expr } => {
            let expr = process_class_property_value(expr, held, st);
            Kind::Typed { wrapper: *wrapper, expr }
        },
        Kind::Arrow { is_async, params, expression, body } => {
            let (expression, body) = process_arrow_property_value(*expression, body, held, st);
            Kind::Arrow {
                is_async: *is_async,
                params: copied_patterns(params),
                expression,
                body,
            }
        },
        Kind::Function { is_async, generator, name, params, body } => {
            let body = capture_this_in_statement_list(body, held, st);
            Kind::Function {
                is_async: *is_async,
                generator: *generator,
                name: copied_text(name),
                params: copied_patterns(params),
                body,
            }
        },
        _ => {
            if !is_root_create_component_expr(value) {
                return share(value);
            }
            let (rewritten, alias) = rewrite_component_expr_this_capture(value, held, st);
            return match alias {
                Some(alias) => wrap_expr_with_this_alias_iife(rewritten, alias.as_str()),
                None => rewritten,
            };
        },
    };
    Rc::new(Expr { span: value.span, facts: copied_facts(&value.facts), kind })
}

/// Binds `this` in the members of a class.
pub fn capture_class_component_this(
    members: &Vec<ClassMember>,
    held: &Vec<u32>,
    st: &mut Rewrite,
) -> (done: Vec<ClassMember>)
    ensures
        (member_values(done@), final(st)@) == members_caught(
            members@,
            members@.len(),
            held@,
            old(st)@,
        ),
{
    let mut done: Vec<ClassMember> = Vec::new();
    let mut i: usize = 0;
    proof {
        assert(member_values(done@) =~= Seq::<ClassMemberV>::empty());
    }
    while i < members.len()
        invariant
            i <= members@.len(),
            (member_values(done@), st@) == members_caught(members@, i as nat, held@, old(st)@),
        decreases members@.len() - i,
    {
        let ghost before = done@;
        let member = match &members[i] {
            ClassMember::Method(Some(body)) => {
                let body = capture_this_in_statement_list(body, held, st);
                ClassMember::Method(Some(body))
            },
            ClassMember::Method(None) => ClassMember::Method(None),
            ClassMember::Property(Some(value)) => {
                let value = process_class_property_value(value, held, st);
                ClassMember::Property(Some(value))
            },
            ClassMember::Property(None) => ClassMember::Property(None),
            ClassMember::Opaque(id) => ClassMember::Opaque(*id),
        };
        done.push(member);
        proof {
            assert(member_values(done@) =~= member_values(before).push(member@));
        }
        i = i + 1;
    }
    done
}

} // verus!
