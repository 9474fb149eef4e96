//! What is put out comes to an end: each JSX is cleared in the end.

use crate::ast::{
    declarator_values, element_value, element_values, expr_value, expr_values, key_value,
    kind_value, no_span, option_value, prop_value, prop_values, stmt_value, stmt_values,
    Declarator, Element, Expr, ExprV, JsxAttr, JsxChild, JsxElement, JsxFragment, JsxValue, Key,
    Kind, KindV, Prop, Stmt,
};
use crate::entry::{exit_v, root_info, ExitV, Surrounding};
use crate::ir::ContextV;
use crate::make::null_v;
use crate::nesting::{
    branch_holds, declarator_holds, declarators_hold, element_holds, elements_hold, exprs_hold,
    holds, jsx_in, key_holds, kind_holds, option_holds, prop_holds, props_hold, search_in_order,
    stmt_holds, stmts_hold,
};
use crate::nesting_attributes::all_attrs_in;
use crate::nesting_elements::{child_in, children_in, element_in, fragment_in};
use crate::nesting_make::{attr_in, expr_in, ok};
use crate::nesting_nodes::{fragment_holds, jsx_element_holds, put_out_holds};
use crate::node::{fragment_v, jsx_element_v};
use crate::options::TransformOptions;
use crate::resolve::{
    finished_from, first_jsx, is_finished, left_from, left_v, node_exit_v, resolved_v, with_first,
    LeftV, ResolutionV,
};
use crate::vocabulary::Vocabulary;
use std::rc::Rc;
use vstd::prelude::*;

verus! {

// ---------------------------------------------------------------------------
// Ends
// ---------------------------------------------------------------------------

/// Going through an expression comes to an end.
pub open spec fn finishes(
    expr: ExprV,
    ctx: ContextV,
    options: TransformOptions,
    vocabulary: Vocabulary,
) -> bool {
    exists|n: nat| #[trigger] finished_from(n, expr, ctx, options, vocabulary)
}

/// Behind `n` JSX, going through `expr` is going through `next`.
pub open spec fn passes(
    n: nat,
    expr: ExprV,
    ctx: ContextV,
    next: ExprV,
    after: ContextV,
    options: TransformOptions,
    vocabulary: Vocabulary,
) -> bool {
    forall|limit: nat|
        limit >= n ==> #[trigger] resolved_v(expr, limit, ctx, options, vocabulary) == resolved_v(
            next,
            (limit - n) as nat,
            after,
            options,
            vocabulary,
        )
}

/// Going through an expression comes to an end, or leaves its first `m` JSX
/// behind.
pub open spec fn gets_past(
    m: nat,
    expr: ExprV,
    ctx: ContextV,
    options: TransformOptions,
    vocabulary: Vocabulary,
) -> bool {
    ||| finishes(expr, ctx, options, vocabulary)
    ||| exists|n: nat, next: ExprV, after: ContextV|
        #[trigger] passes(n, expr, ctx, next, after, options, vocabulary) && jsx_in(next) == jsx_in(
            expr,
        ).skip(m as int)
}

/// Wherever JSX of this kind is the first, it is left behind.
pub open spec fn clears(kind: KindV, options: TransformOptions, vocabulary: Vocabulary) -> bool {
    forall|expr: ExprV, ctx: ContextV|
        jsx_in(expr).len() > 0 && jsx_in(expr)[0].kind == kind ==> #[trigger] gets_past(
            1,
            expr,
            ctx,
            options,
            vocabulary,
        )
}

/// The kinds that are left behind.
pub open spec fn clearing(options: TransformOptions, vocabulary: Vocabulary) -> spec_fn(
    KindV,
) -> bool {
    |kind: KindV| clears(kind, options, vocabulary)
}

proof fn passing_on(
    n: nat,
    expr: ExprV,
    ctx: ContextV,
    next: ExprV,
    after: ContextV,
    options: TransformOptions,
    vocabulary: Vocabulary,
)
    requires
        passes(n, expr, ctx, next, after, options, vocabulary),
        finishes(next, after, options, vocabulary),
    ensures
        finishes(expr, ctx, options, vocabulary),
{
    let m = choose|m: nat| #[trigger] finished_from(m, next, after, options, vocabulary);
    assert forall|limit: nat| limit >= n + m implies #[trigger] is_finished(
        expr,
        limit,
        ctx,
        options,
        vocabulary,
    ) by {
        assert(is_finished(next, (limit - n) as nat, after, options, vocabulary));
    }
    assert(finished_from(n + m, expr, ctx, options, vocabulary));
}

/// Where each of the first `m` JSX is left behind alone, all of them are.
proof fn gets_past_all(
    m: nat,
    expr: ExprV,
    ctx: ContextV,
    options: TransformOptions,
    vocabulary: Vocabulary,
)
    requires
        m <= jsx_in(expr).len(),
        forall|i: int|
            0 <= i < m ==> clears((#[trigger] jsx_in(expr)[i]).kind, options, vocabulary),
    ensures
        gets_past(m, expr, ctx, options, vocabulary),
    decreases m,
{
    let all = jsx_in(expr);
    if m == 0 {
        assert(passes(0, expr, ctx, expr, ctx, options, vocabulary));
        assert(all.skip(0) =~= all);
    } else {
        assert(clears(all[0].kind, options, vocabulary));
        assert(gets_past(1, expr, ctx, options, vocabulary));
        if !finishes(expr, ctx, options, vocabulary) {
            let (n, next, after) = choose|n: nat, next: ExprV, after: ContextV|
                #[trigger] passes(n, expr, ctx, next, after, options, vocabulary) && jsx_in(next)
                    == all.skip(1);
            let rest = jsx_in(next);
            assert forall|i: int| 0 <= i < m - 1 implies clears(
                (#[trigger] rest[i]).kind,
                options,
                vocabulary,
            ) by {
                assert(rest[i] == all[i + 1]);
            }
            gets_past_all((m - 1) as nat, next, after, options, vocabulary);
            if finishes(next, after, options, vocabulary) {
                passing_on(n, expr, ctx, next, after, options, vocabulary);
            } else {
                let (k, end, last) = choose|k: nat, end: ExprV, last: ContextV|
                    #[trigger] passes(k, next, after, end, last, options, vocabulary) && jsx_in(end)
                        == rest.skip(m - 1);
                assert(passes(n + k, expr, ctx, end, last, options, vocabulary)) by {
                    assert forall|limit: nat| limit >= n + k implies #[trigger] resolved_v(
                        expr,
                        limit,
                        ctx,
                        options,
                        vocabulary,
                    ) == resolved_v(end, (limit - (n + k)) as nat, last, options, vocabulary) by {
                        let left = (limit - n) as nat;
                        assert(resolved_v(next, left, after, options, vocabulary) == resolved_v(
                            end,
                            (left - k) as nat,
                            last,
                            options,
                            vocabulary,
                        ));
                    }
                }
                assert(rest.skip(m - 1) =~= all.skip(m as int));
            }
        }
    }
}

/// JSX that holds only what is left behind is itself left behind.
proof fn node_clears(kind: KindV, options: TransformOptions, vocabulary: Vocabulary)
    requires
        forall|ctx: ContextV|
            (#[trigger] node_exit_v(kind, ctx, options, vocabulary)).0 matches ExitV::Dom(by)
                ==> holds(by, clearing(options, vocabulary)),
    ensures
        clears(kind, options, vocabulary),
{
    let p = clearing(options, vocabulary);
    assert forall|expr: ExprV, ctx: ContextV|
        jsx_in(expr).len() > 0 && jsx_in(expr)[0].kind == kind implies #[trigger] gets_past(
        1,
        expr,
        ctx,
        options,
        vocabulary,
    ) by {
        search_in_order(expr, null_v(no_span()), None, p);
        assert(first_jsx(expr) == Some(jsx_in(expr)[0]));
        let (exit, after) = node_exit_v(kind, ctx, options, vocabulary);
        if let ExitV::Dom(by) = exit {
            let next = with_first(expr, by);
            search_in_order(expr, by, None, p);
            search_in_order(by, by, None, p);
            let m = jsx_in(by).len();
            let all = jsx_in(next);
            assert(all == jsx_in(by) + jsx_in(expr).skip(1));
            assert(passes(1, expr, ctx, next, after, options, vocabulary));
            assert forall|i: int| 0 <= i < m implies clears(
                (#[trigger] all[i]).kind,
                options,
                vocabulary,
            ) by {
                assert(all[i] == jsx_in(by)[i]);
                assert(p(jsx_in(by)[i].kind));
            }
            gets_past_all(m, next, after, options, vocabulary);
            if finishes(next, after, options, vocabulary) {
                passing_on(1, expr, ctx, next, after, options, vocabulary);
            } else {
                let (k, end, last) = choose|k: nat, end: ExprV, last: ContextV|
                    #[trigger] passes(k, next, after, end, last, options, vocabulary) && jsx_in(end)
                        == all.skip(m as int);
                assert(passes(1 + k, expr, ctx, end, last, options, vocabulary)) by {
                    assert forall|limit: nat| limit >= 1 + k implies #[trigger] resolved_v(
                        expr,
                        limit,
                        ctx,
                        options,
                        vocabulary,
                    ) == resolved_v(end, (limit - (1 + k)) as nat, last, options, vocabulary) by {
                        let left = (limit - 1) as nat;
                        assert(resolved_v(next, left, after, options, vocabulary) == resolved_v(
                            end,
                            (left - k) as nat,
                            last,
                            options,
                            vocabulary,
                        ));
                    }
                }
                assert(all.skip(m as int) =~= jsx_in(expr).skip(1));
            }
        } else {
            assert forall|limit: nat| limit >= 1 implies #[trigger] is_finished(
                expr,
                limit,
                ctx,
                options,
                vocabulary,
            ) by {}
            assert(finished_from(1, expr, ctx, options, vocabulary));
        }
    }
}

// ---------------------------------------------------------------------------
// All JSX of the source is left behind
// ---------------------------------------------------------------------------

proof fn expr_clear(expr: &Expr, options: TransformOptions, vocabulary: Vocabulary)
    ensures
        holds(expr_value(*expr), clearing(options, vocabulary)),
    decreases expr, 1nat,
{
    match &expr.kind {
        Kind::JsxElement(element) => {
            element_clear(&**element, options, vocabulary);
            assert(clearing(options, vocabulary)(kind_value(expr.kind)));
        },
        Kind::JsxFragment(fragment) => {
            fragment_clear(&**fragment, options, vocabulary);
            assert(clearing(options, vocabulary)(kind_value(expr.kind)));
        },
        _ => {
            kind_clear(&expr.kind, options, vocabulary);
        },
    }
}

#[verifier::rlimit(60)]
proof fn kind_clear(kind: &Kind, options: TransformOptions, vocabulary: Vocabulary)
    requires
        !(kind is JsxElement) && !(kind is JsxFragment),
    ensures
        kind_holds(kind_value(*kind), clearing(options, vocabulary)),
    decreases kind, 0nat,
{
    match kind {
        Kind::Template { exprs, .. } => {
            exprs_clear(exprs@, options, vocabulary);
        },
        Kind::Array(items) => {
            elements_clear(items@, options, vocabulary);
        },
        Kind::Object(props) => {
            props_clear(props@, options, vocabulary);
        },
        Kind::Member { object, .. } => {
            expr_clear(&**object, options, vocabulary);
        },
        Kind::Index { object, index, .. } => {
            expr_clear(&**object, options, vocabulary);
            expr_clear(&**index, options, vocabulary);
        },
        Kind::PrivateMember { object, .. } => {
            expr_clear(&**object, options, vocabulary);
        },
        Kind::Call { callee, args, .. } => {
            expr_clear(&**callee, options, vocabulary);
            elements_clear(args@, options, vocabulary);
        },
        Kind::Arrow { body, .. } => {
            stmts_clear(body@, options, vocabulary);
        },
        Kind::Function { body, .. } => {
            stmts_clear(body@, options, vocabulary);
        },
        Kind::Assign { target, value, .. } => {
            expr_clear(&**target, options, vocabulary);
            expr_clear(&**value, options, vocabulary);
        },
        Kind::Unary { argument, .. } => {
            expr_clear(&**argument, options, vocabulary);
        },
        Kind::Binary { left, right, .. } => {
            expr_clear(&**left, options, vocabulary);
            expr_clear(&**right, options, vocabulary);
        },
        Kind::Logical { left, right, .. } => {
            expr_clear(&**left, options, vocabulary);
            expr_clear(&**right, options, vocabulary);
        },
        Kind::Conditional { test, consequent, alternate } => {
            expr_clear(&**test, options, vocabulary);
            expr_clear(&**consequent, options, vocabulary);
            expr_clear(&**alternate, options, vocabulary);
        },
        Kind::Sequence(items) => {
            exprs_clear(items@, options, vocabulary);
        },
        Kind::Paren(inner) => {
            expr_clear(&**inner, options, vocabulary);
        },
        Kind::Chain(inner) => {
            expr_clear(&**inner, options, vocabulary);
        },
        Kind::Typed { expr, .. } => {
            expr_clear(&**expr, options, vocabulary);
        },
        _ => {},
    }
}

proof fn element_of_list_clear(item: &Element, options: TransformOptions, vocabulary: Vocabulary)
    ensures
        element_holds(element_value(*item), clearing(options, vocabulary)),
    decreases item, 0nat,
{
    match item {
        Element::Expr(expr) => {
            expr_clear(&**expr, options, vocabulary);
        },
        Element::Spread(expr) => {
            expr_clear(&**expr, options, vocabulary);
        },
        Element::Hole => {},
    }
}

proof fn key_clear(key: &Key, options: TransformOptions, vocabulary: Vocabulary)
    ensures
        key_holds(key_value(*key), clearing(options, vocabulary)),
    decreases key, 0nat,
{
    if let Key::Expr(expr) = key {
        expr_clear(&**expr, options, vocabulary);
    }
}

proof fn prop_clear(prop: &Prop, options: TransformOptions, vocabulary: Vocabulary)
    ensures
        prop_holds(prop_value(*prop), clearing(options, vocabulary)),
    decreases prop, 0nat,
{
    match prop {
        Prop::Named { key, value, .. } => {
            key_clear(key, options, vocabulary);
            expr_clear(&**value, options, vocabulary);
        },
        Prop::Spread { argument, .. } => {
            expr_clear(&**argument, options, vocabulary);
        },
    }
}

proof fn option_clear(expr: &Option<Rc<Expr>>, options: TransformOptions, vocabulary: Vocabulary)
    ensures
        option_holds(option_value(*expr), clearing(options, vocabulary)),
    decreases expr, 0nat,
{
    if let Some(expr) = expr {
        expr_clear(&**expr, options, vocabulary);
    }
}

proof fn stmt_clear(stmt: &Stmt, options: TransformOptions, vocabulary: Vocabulary)
    ensures
        stmt_holds(stmt_value(*stmt), clearing(options, vocabulary)),
    decreases stmt, 0nat,
{
    let p = clearing(options, vocabulary);
    match stmt {
        Stmt::Expr(expr) => {
            expr_clear(&**expr, options, vocabulary);
        },
        Stmt::Return(expr) => {
            option_clear(expr, options, vocabulary);
        },
        Stmt::Var { declarators, .. } => {
            declarators_clear(declarators@, options, vocabulary);
        },
        Stmt::Block(body) => {
            stmts_clear(body@, options, vocabulary);
        },
        Stmt::If { test, consequent, alternate } => {
            expr_clear(&**test, options, vocabulary);
            stmt_clear(&**consequent, options, vocabulary);
            if let Some(alternate) = alternate {
                stmt_clear(&**alternate, options, vocabulary);
            }
            assert(branch_holds(stmt_value(*stmt)->If_alternate, p));
        },
        Stmt::Function { body, .. } => {
            stmts_clear(body@, options, vocabulary);
        },
        Stmt::Opaque(_) => {},
    }
}

proof fn exprs_clear(items: Seq<Rc<Expr>>, options: TransformOptions, vocabulary: Vocabulary)
    ensures
        exprs_hold(expr_values(items), clearing(options, vocabulary)),
    decreases items, 0nat,
{
    let p = clearing(options, vocabulary);
    assert forall|i: int| 0 <= i < items.len() implies holds(
        #[trigger] expr_values(items)[i],
        p,
    ) by {
        let item: &Rc<Expr> = &items[i];
        expr_clear(&**item, options, vocabulary);
    }
}

proof fn elements_clear(items: Seq<Element>, options: TransformOptions, vocabulary: Vocabulary)
    ensures
        elements_hold(element_values(items), clearing(options, vocabulary)),
    decreases items, 0nat,
{
    let p = clearing(options, vocabulary);
    assert forall|i: int| 0 <= i < items.len() implies element_holds(
        #[trigger] element_values(items)[i],
        p,
    ) by {
        element_of_list_clear(&items[i], options, vocabulary);
    }
}

proof fn props_clear(items: Seq<Prop>, options: TransformOptions, vocabulary: Vocabulary)
    ensures
        props_hold(prop_values(items), clearing(options, vocabulary)),
    decreases items, 0nat,
{
    let p = clearing(options, vocabulary);
    assert forall|i: int| 0 <= i < items.len() implies prop_holds(
        #[trigger] prop_values(items)[i],
        p,
    ) by {
        prop_clear(&items[i], options, vocabulary);
    }
}

proof fn stmts_clear(items: Seq<Stmt>, options: TransformOptions, vocabulary: Vocabulary)
    ensures
        stmts_hold(stmt_values(items), clearing(options, vocabulary)),
    decreases items, 0nat,
{
    let p = clearing(options, vocabulary);
    assert forall|i: int| 0 <= i < items.len() implies stmt_holds(
        #[trigger] stmt_values(items)[i],
        p,
    ) by {
        stmt_clear(&items[i], options, vocabulary);
    }
}

proof fn declarators_clear(items: Seq<Declarator>, options: TransformOptions, vocabulary: Vocabulary)
    ensures
        declarators_hold(declarator_values(items), clearing(options, vocabulary)),
    decreases items, 0nat,
{
    let p = clearing(options, vocabulary);
    assert forall|i: int| 0 <= i < items.len() implies declarator_holds(
        #[trigger] declarator_values(items)[i],
        p,
    ) by {
        option_clear(&items[i].init, options, vocabulary);
        assert(declarator_values(items)[i].init == option_value(items[i].init));
    }
}

// ---------------------------------------------------------------------------
// JSX
// ---------------------------------------------------------------------------

proof fn given_clear(expr: &Expr, options: TransformOptions, vocabulary: Vocabulary)
    ensures
        expr_in(*expr, clearing(options, vocabulary)),
    decreases expr, 2nat,
{
    reveal(ok);
    expr_clear(expr, options, vocabulary);
    if let Some(condition) = &expr.facts.condition {
        if let Some(memo) = &condition.inline {
            expr_clear(&*memo.expr, options, vocabulary);
        }
        if let Some(memo) = &condition.insert {
            expr_clear(&*memo.expr, options, vocabulary);
        }
    }
}

proof fn attrs_clear(attrs: Seq<JsxAttr>, options: TransformOptions, vocabulary: Vocabulary)
    ensures
        all_attrs_in(attrs, clearing(options, vocabulary)),
    decreases attrs, 0nat,
{
    let p = clearing(options, vocabulary);
    assert forall|i: int| 0 <= i < attrs.len() implies match #[trigger] attrs[i] {
        JsxAttr::Named(attr) => attr_in(attr, p),
        JsxAttr::Spread { argument, .. } => expr_in(*argument, p),
    } by {
        match &attrs[i] {
            JsxAttr::Named(attr) => {
                if let JsxValue::Container { expr: Some(expr), .. } = &attr.value {
                    given_clear(&**expr, options, vocabulary);
                }
            },
            JsxAttr::Spread { argument, .. } => {
                given_clear(&**argument, options, vocabulary);
            },
        }
    }
}

proof fn child_clear(child: &JsxChild, options: TransformOptions, vocabulary: Vocabulary)
    ensures
        child_in(*child, clearing(options, vocabulary)),
    decreases child, 0nat,
{
    match child {
        JsxChild::Text(_) => {},
        JsxChild::Container { expr, .. } => {
            if let Some(expr) = expr {
                given_clear(&**expr, options, vocabulary);
            }
        },
        JsxChild::Spread { expr, .. } => {
            given_clear(&**expr, options, vocabulary);
        },
        JsxChild::Element(element) => {
            element_clear(&**element, options, vocabulary);
        },
        JsxChild::Fragment(fragment) => {
            fragment_clear(&**fragment, options, vocabulary);
        },
    }
}

proof fn children_clear(children: Seq<JsxChild>, options: TransformOptions, vocabulary: Vocabulary)
    ensures
        children_in(children, clearing(options, vocabulary)),
    decreases children, 0nat,
{
    let p = clearing(options, vocabulary);
    assert forall|i: int| 0 <= i < children.len() implies child_in(#[trigger] children[i], p) by {
        child_clear(&children[i], options, vocabulary);
    }
}

proof fn element_clear(element: &JsxElement, options: TransformOptions, vocabulary: Vocabulary)
    ensures
        element_in(*element, clearing(options, vocabulary)),
        clears(KindV::JsxElement(*element), options, vocabulary),
    decreases element, 0nat,
{
    let p = clearing(options, vocabulary);
    attrs_clear(element.attrs@, options, vocabulary);
    children_clear(element.children@, options, vocabulary);
    if let Some(output) = &element.component {
        exprs_clear(output.exprs@, options, vocabulary);
        assert forall|i: int| 0 <= i < output.exprs@.len() implies ok(
            expr_value(*#[trigger] output.exprs@[i]),
            p,
        ) by {
            reveal(ok);
            assert(holds(expr_values(output.exprs@)[i], p));
        }
    }
    assert(element_in(*element, p));
    let kind = KindV::JsxElement(*element);
    assert forall|ctx: ContextV|
        (#[trigger] node_exit_v(kind, ctx, options, vocabulary)).0 matches ExitV::Dom(by)
            ==> holds(by, p) by {
        jsx_element_holds(element, root_info(true), ctx, options, vocabulary, p);
        let made = jsx_element_v(*element, root_info(true), ctx, options, vocabulary);
        put_out_holds(made.0, made.1, options, vocabulary, p);
        reveal(ok);
    }
    node_clears(kind, options, vocabulary);
}

proof fn fragment_clear(fragment: &JsxFragment, options: TransformOptions, vocabulary: Vocabulary)
    ensures
        fragment_in(*fragment, clearing(options, vocabulary)),
        clears(KindV::JsxFragment(*fragment), options, vocabulary),
    decreases fragment, 0nat,
{
    let p = clearing(options, vocabulary);
    children_clear(fragment.children@, options, vocabulary);
    let kind = KindV::JsxFragment(*fragment);
    assert forall|ctx: ContextV|
        (#[trigger] node_exit_v(kind, ctx, options, vocabulary)).0 matches ExitV::Dom(by)
            ==> holds(by, p) by {
        fragment_holds(fragment, root_info(false), ctx, options, vocabulary, p);
        let made = fragment_v(*fragment, root_info(false), ctx, options, vocabulary);
        put_out_holds(made.0, made.1, options, vocabulary, p);
        reveal(ok);
    }
    node_clears(kind, options, vocabulary);
}

// ---------------------------------------------------------------------------
// Laws
// ---------------------------------------------------------------------------

proof fn cleared_finishes(
    expr: ExprV,
    ctx: ContextV,
    options: TransformOptions,
    vocabulary: Vocabulary,
)
    requires
        holds(expr, clearing(options, vocabulary)),
    ensures
        finishes(expr, ctx, options, vocabulary),
{
    let p = clearing(options, vocabulary);
    search_in_order(expr, expr, None, p);
    let all = jsx_in(expr);
    assert forall|i: int| 0 <= i < all.len() implies clears(
        (#[trigger] all[i]).kind,
        options,
        vocabulary,
    ) by {
        assert(p(all[i].kind));
    }
    gets_past_all(all.len(), expr, ctx, options, vocabulary);
    if !finishes(expr, ctx, options, vocabulary) {
        let (n, next, after) = choose|n: nat, next: ExprV, after: ContextV|
            #[trigger] passes(n, expr, ctx, next, after, options, vocabulary) && jsx_in(next)
                == all.skip(all.len() as int);
        assert(jsx_in(next).len() == 0);
        search_in_order(next, null_v(no_span()), None, p);
        assert forall|limit: nat| limit >= 0 implies #[trigger] is_finished(
            next,
            limit,
            after,
            options,
            vocabulary,
        ) by {}
        assert(finished_from(0, next, after, options, vocabulary));
        passing_on(n, expr, ctx, next, after, options, vocabulary);
    }
}

/// Going through an expression of the source comes to an end: with enough JSX
/// allowed, none is left over.
pub proof fn resolving_ends(
    expr: &Expr,
    ctx: ContextV,
    options: TransformOptions,
    vocabulary: Vocabulary,
)
    ensures
        exists|n: nat| #[trigger] finished_from(n, expr@, ctx, options, vocabulary),
{
    expr_clear(expr, options, vocabulary);
    cleared_finishes(expr@, ctx, options, vocabulary);
}

/// Leaving an expression comes to an end: with enough JSX allowed, none is left
/// over in what it is put out as.
pub proof fn leaving_ends(
    expr: &Expr,
    around: Seq<Surrounding>,
    ctx: ContextV,
    options: TransformOptions,
    vocabulary: Vocabulary,
)
    ensures
        exists|n: nat| #[trigger] left_from(n, *expr, around, ctx, options, vocabulary),
{
    let p = clearing(options, vocabulary);
    let (exit, after) = exit_v(*expr, around, ctx, options, vocabulary);
    let n = match exit {
        ExitV::Dom(by) => {
            assert(holds(by, p)) by {
                match &expr.kind {
                    Kind::JsxElement(element) => {
                        let element: &JsxElement = &**element;
                        element_clear(element, options, vocabulary);
                        jsx_element_holds(element, root_info(true), ctx, options, vocabulary, p);
                        let made = jsx_element_v(
                            *element,
                            root_info(true),
                            ctx,
                            options,
                            vocabulary,
                        );
                        put_out_holds(made.0, made.1, options, vocabulary, p);
                    },
                    Kind::JsxFragment(fragment) => {
                        let fragment: &JsxFragment = &**fragment;
                        fragment_clear(fragment, options, vocabulary);
                        fragment_holds(fragment, root_info(false), ctx, options, vocabulary, p);
                        let made = fragment_v(
                            *fragment,
                            root_info(false),
                            ctx,
                            options,
                            vocabulary,
                        );
                        put_out_holds(made.0, made.1, options, vocabulary, p);
                    },
                    _ => {},
                }
                reveal(ok);
            }
            cleared_finishes(by, after, options, vocabulary);
            choose|n: nat| #[trigger] finished_from(n, by, after, options, vocabulary)
        },
        _ => 0nat,
    };
    assert forall|limit: nat| limit >= n implies !((#[trigger] left_v(
        *expr,
        around,
        limit,
        ctx,
        options,
        vocabulary,
    )).0 matches LeftV::Resolved(ResolutionV::Unfinished(_))) by {
        if let ExitV::Dom(by) = exit {
            assert(is_finished(by, limit, after, options, vocabulary));
        }
    }
    assert(left_from(n, *expr, around, ctx, options, vocabulary));
}

} // verus!
