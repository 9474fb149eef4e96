//! What is put out, with the JSX that was left for later put out too.

use crate::ast::{no_span, nowhere, Expr, ExprV, KindV, Span};
use crate::deferred::{expr_s, swap_expr};
use crate::deferred_laws::search_is_apart;
use crate::element::is_placeable;
use crate::entry::{exit_v, put_out_v, root_info, Exit, ExitV, SolidTransform, Surrounding};
use crate::growth::{group_growth, grows};
use crate::growth_laws::{exit_grows, fragment_grows, jsx_element_grows, output_grows};
use crate::ir::{
    rewinding_keeps_steps, rewinding_undoes, Asking, ContextV, ResultV, TransformResult, Wanted,
};
use crate::make::{null, null_v};
use crate::nesting_laws::{leaving_ends, resolving_ends};
use crate::node::{fragment_v, is_transformable, jsx_element_v};
use crate::options::TransformOptions;
use crate::outside::share;
use crate::vocabulary::Vocabulary;
use std::rc::Rc;
use vstd::prelude::*;

verus! {

/// The first JSX in an expression, in the order of the source.
pub open spec fn first_jsx(expr: ExprV) -> Option<ExprV> {
    expr_s(expr, null_v(no_span()), None).1
}

/// An expression with another in the place of the first JSX.
pub open spec fn with_first(expr: ExprV, by: ExprV) -> ExprV {
    expr_s(expr, by, None).0
}

/// A JSX element or fragment can be transformed as the root of a tree.
pub open spec fn is_root(kind: KindV, options: TransformOptions, vocabulary: Vocabulary) -> bool {
    match kind {
        KindV::JsxElement(element) => if element.is_component {
            true
        } else if options.universal_renders(element.tag@) {
            forall|i: int|
                0 <= i < element.children@.len() ==> is_transformable(
                    #[trigger] element.children@[i],
                    true,
                    false,
                    options,
                    vocabulary,
                )
        } else {
            is_placeable(element, true, false, options, vocabulary)
        },
        KindV::JsxFragment(fragment) => forall|i: int|
            0 <= i < fragment.children@.len() ==> is_transformable(
                #[trigger] fragment.children@[i],
                true,
                false,
                options,
                vocabulary,
            ),
        _ => true,
    }
}

/// How JSX is put out.
pub open spec fn node_exit_v(
    kind: KindV,
    ctx: ContextV,
    options: TransformOptions,
    vocabulary: Vocabulary,
) -> (ExitV, ContextV) {
    if !is_root(kind, options, vocabulary) {
        (ExitV::Refused, ctx)
    } else {
        match kind {
            KindV::JsxElement(element) => {
                let (result, ctx) = jsx_element_v(
                    element,
                    root_info(true),
                    ctx,
                    options,
                    vocabulary,
                );
                put_out_v(result, ctx, options, vocabulary)
            },
            KindV::JsxFragment(fragment) => {
                let (result, ctx) = fragment_v(
                    fragment,
                    root_info(false),
                    ctx,
                    options,
                    vocabulary,
                );
                put_out_v(result, ctx, options, vocabulary)
            },
            _ => (ExitV::Unchanged, ctx),
        }
    }
}

/// An expression that was gone through.
#[derive(Debug)]
pub enum Resolution {
    /// No JSX is left.
    Done(Rc<Expr>),
    /// The first JSX that is left is put out by the universal renderer.
    Universal(Rc<Expr>, TransformResult),
    /// The first JSX that is left cannot be transformed.
    Refused(Rc<Expr>),
}

/// The value of a `Resolution`.
pub ghost enum ResolutionV {
    Done(ExprV),
    Universal(ExprV, ResultV),
    Refused(ExprV),
    /// As many JSX as allowed were put out, and some is left.
    Unfinished(ExprV),
}

impl View for Resolution {
    type V = ResolutionV;

    open spec fn view(&self) -> ResolutionV {
        match *self {
            Resolution::Done(expr) => ResolutionV::Done(expr@),
            Resolution::Universal(expr, result) => ResolutionV::Universal(expr@, result@),
            Resolution::Refused(expr) => ResolutionV::Refused(expr@),
        }
    }
}

/// Puts out one JSX after the other, at most `limit` of them; JSX in what is
/// put out comes before what lies behind it.
pub open spec fn resolved_v(
    expr: ExprV,
    limit: nat,
    ctx: ContextV,
    options: TransformOptions,
    vocabulary: Vocabulary,
) -> (ResolutionV, ContextV)
    decreases limit,
{
    match first_jsx(expr) {
        None => (ResolutionV::Done(expr), ctx),
        Some(node) => if limit == 0 {
            (ResolutionV::Unfinished(expr), ctx)
        } else {
            let (exit, ctx) = node_exit_v(node.kind, ctx, options, vocabulary);
            match exit {
                ExitV::Dom(by) => resolved_v(
                    with_first(expr, by),
                    (limit - 1) as nat,
                    ctx,
                    options,
                    vocabulary,
                ),
                ExitV::Universal(result) => (ResolutionV::Universal(expr, result), ctx),
                ExitV::Refused => (ResolutionV::Refused(expr), ctx),
                ExitV::Unchanged => (ResolutionV::Done(expr), ctx),
            }
        },
    }
}

/// With so many JSX allowed, none is left over.
pub open spec fn is_finished(
    expr: ExprV,
    limit: nat,
    ctx: ContextV,
    options: TransformOptions,
    vocabulary: Vocabulary,
) -> bool {
    !(resolved_v(expr, limit, ctx, options, vocabulary).0 is Unfinished)
}

/// From `n` JSX on, none is left over.
pub open spec fn finished_from(
    n: nat,
    expr: ExprV,
    ctx: ContextV,
    options: TransformOptions,
    vocabulary: Vocabulary,
) -> bool {
    forall|limit: nat|
        limit >= n ==> #[trigger] is_finished(expr, limit, ctx, options, vocabulary)
}

/// What going through an expression comes to, with as many JSX allowed as it
/// takes.
pub open spec fn all_resolved_v(
    expr: ExprV,
    ctx: ContextV,
    options: TransformOptions,
    vocabulary: Vocabulary,
) -> (ResolutionV, ContextV) {
    let n = choose|n: nat| #[trigger] finished_from(n, expr, ctx, options, vocabulary);
    resolved_v(expr, n, ctx, options, vocabulary)
}

/// What the walk leaves of an expression.
#[derive(Debug)]
pub enum Left {
    /// The expression stays as it is.
    Unchanged,
    /// It is put out by the universal renderer.
    Universal(TransformResult),
    /// It cannot be transformed.
    Refused,
    /// It was put out, and what was put out was gone through.
    Resolved(Resolution),
}

/// The value of a `Left`.
pub ghost enum LeftV {
    Unchanged,
    Universal(ResultV),
    Refused,
    Resolved(ResolutionV),
}

impl View for Left {
    type V = LeftV;

    open spec fn view(&self) -> LeftV {
        match *self {
            Left::Unchanged => LeftV::Unchanged,
            Left::Universal(result) => LeftV::Universal(result@),
            Left::Refused => LeftV::Refused,
            Left::Resolved(resolution) => LeftV::Resolved(resolution@),
        }
    }
}

/// Puts out an expression, and then the JSX in what was put out, at most `limit`
/// of them.
pub open spec fn left_v(
    expr: Expr,
    around: Seq<Surrounding>,
    limit: nat,
    ctx: ContextV,
    options: TransformOptions,
    vocabulary: Vocabulary,
) -> (LeftV, ContextV) {
    let (exit, ctx) = exit_v(expr, around, ctx, options, vocabulary);
    match exit {
        ExitV::Dom(by) => {
            let (resolution, ctx) = resolved_v(by, limit, ctx, options, vocabulary);
            (LeftV::Resolved(resolution), ctx)
        },
        ExitV::Universal(result) => (LeftV::Universal(result), ctx),
        ExitV::Refused => (LeftV::Refused, ctx),
        ExitV::Unchanged => (LeftV::Unchanged, ctx),
    }
}

/// With `n` JSX allowed or more, an expression that the walk leaves is not left
/// unfinished.
pub open spec fn left_from(
    n: nat,
    expr: Expr,
    around: Seq<Surrounding>,
    ctx: ContextV,
    options: TransformOptions,
    vocabulary: Vocabulary,
) -> bool {
    forall|limit: nat|
        limit >= n ==> !((#[trigger] left_v(
            expr,
            around,
            limit,
            ctx,
            options,
            vocabulary,
        )).0 matches LeftV::Resolved(ResolutionV::Unfinished(_)))
}

/// Puts out an expression, and then the JSX in what was put out, with as many
/// allowed as it takes.
pub open spec fn all_left_v(
    expr: Expr,
    around: Seq<Surrounding>,
    ctx: ContextV,
    options: TransformOptions,
    vocabulary: Vocabulary,
) -> (LeftV, ContextV) {
    let n = choose|n: nat| #[trigger] left_from(n, expr, around, ctx, options, vocabulary);
    left_v(expr, around, n, ctx, options, vocabulary)
}

proof fn exit_of_node(
    node: &Expr,
    ctx: ContextV,
    options: TransformOptions,
    vocabulary: Vocabulary,
)
    ensures
        exit_v(*node, Seq::<Surrounding>::empty(), ctx, options, vocabulary) == node_exit_v(
            node@.kind,
            ctx,
            options,
            vocabulary,
        ),
{
}

impl<'a> SolidTransform<'a> {
    /// Puts out the JSX in an expression, one after the other, until none is left.
    pub fn resolve_deferred_jsx_in_expression(
        &mut self,
        expr: &Rc<Expr>,
        vocabulary: &Vocabulary,
    ) -> (resolution: Resolution)
        ensures
            final(self).options == old(self).options,
            (resolution@, final(self).context@) == all_resolved_v(
                expr@,
                old(self).context@,
                *old(self).options,
                *vocabulary,
            ),
            old(self).context@.well_formed() ==> final(self).context@.well_formed(),
    {
        let ghost mut left: nat = choose|n: nat| #[trigger]
            finished_from(n, expr@, self.context@, *self.options, *vocabulary);
        let ghost done = resolved_v(expr@, left, self.context@, *self.options, *vocabulary);
        proof {
            resolving_ends(&**expr, self.context@, *self.options, *vocabulary);
            assert(is_finished(expr@, left, self.context@, *self.options, *vocabulary));
            resolving_grows(expr@, left, self.context@, *self.options, *vocabulary);
            reveal(grows);
        }
        let mut current = share(expr);
        loop
            invariant
                self.options == old(self).options,
                done == all_resolved_v(
                    expr@,
                    old(self).context@,
                    *old(self).options,
                    *vocabulary,
                ),
                !(done.0 is Unfinished),
                old(self).context@.well_formed() ==> done.1.well_formed(),
                done == resolved_v(current@, left, self.context@, *self.options, *vocabulary),
            decreases left,
        {
            let mut found: Option<Rc<Expr>> = None;
            let _ = swap_expr(&current, &null(nowhere()), &mut found);
            let node = match found {
                None => {
                    return Resolution::Done(current);
                },
                Some(node) => node,
            };
            let around: Vec<Surrounding> = Vec::new();
            proof {
                assert(left > 0);
                assert(around@ =~= Seq::<Surrounding>::empty());
                exit_of_node(&*node, self.context@, *self.options, *vocabulary);
            }
            match self.exit_expression(&node, &around, vocabulary) {
                Exit::Dom(by) => {
                    let mut again: Option<Rc<Expr>> = None;
                    current = swap_expr(&current, &by, &mut again);
                    proof {
                        left = (left - 1) as nat;
                    }
                },
                Exit::Universal(result) => {
                    return Resolution::Universal(current, result);
                },
                Exit::Refused => {
                    return Resolution::Refused(current);
                },
                Exit::Unchanged => {
                    return Resolution::Done(current);
                },
            }
        }
    }
}

impl<'a> SolidTransform<'a> {
    /// Transforms an expression as the walk leaves it, and puts out the JSX that
    /// was left for later in it: what is done holds no JSX any more.
    pub fn leave_expression(
        &mut self,
        expr: &Expr,
        around: &Vec<Surrounding>,
        vocabulary: &Vocabulary,
    ) -> (left: Left)
        ensures
            final(self).options == old(self).options,
            (left@, final(self).context@) == all_left_v(
                *expr,
                around@,
                old(self).context@,
                *old(self).options,
                *vocabulary,
            ),
            left matches Left::Resolved(Resolution::Done(done)) ==> first_jsx(done@) is None,
            old(self).context@.well_formed() ==> final(self).context@.well_formed(),
    {
        let ghost n = choose|n: nat| #[trigger]
            left_from(n, *expr, around@, self.context@, *self.options, *vocabulary);
        let ghost whole = left_v(
            *expr,
            around@,
            n,
            self.context@,
            *self.options,
            *vocabulary,
        );
        proof {
            leaving_ends(expr, around@, self.context@, *self.options, *vocabulary);
            assert(!(whole.0 matches LeftV::Resolved(ResolutionV::Unfinished(_))));
        }
        match self.exit_expression(expr, around, vocabulary) {
            Exit::Dom(by) => {
                proof {
                    assert(is_finished(by@, n, self.context@, *self.options, *vocabulary));
                    enough_is_enough(by@, n, self.context@, *self.options, *vocabulary);
                    resolved_has_no_jsx(by@, n, self.context@, *self.options, *vocabulary);
                }
                Left::Resolved(self.resolve_deferred_jsx_in_expression(&by, vocabulary))
            },
            Exit::Universal(result) => Left::Universal(result),
            Exit::Refused => Left::Refused,
            Exit::Unchanged => Left::Unchanged,
        }
    }
}

// ---------------------------------------------------------------------------
// Lowered forms
// ---------------------------------------------------------------------------

/// An attempt to transform an expression.
#[derive(Debug)]
pub enum Attempt {
    /// All lowered forms were at hand.
    Done(Left),
    /// What is wanted at this place is asked for, and the file stands where the
    /// transform came upon it; before the attempt, `start` steps were taken.
    Asks { wanted: Wanted, span: Span, start: usize },
}

impl<'a> SolidTransform<'a> {
    /// Transforms an expression as the walk leaves it.  Where that comes upon a
    /// component or a condition that is not lowered yet, the file is taken back
    /// to that point, so that it is lowered there: its names, helpers and
    /// templates come behind those of what stands before it.  With its lowered
    /// form and the steps of it in the tree, the file is taken back to `start`
    /// and the expression is tried again.
    pub fn try_leave(
        self,
        expr: &Expr,
        around: &Vec<Surrounding>,
        vocabulary: &Vocabulary,
    ) -> (tried: (SolidTransform<'a>, Attempt))
        requires
            self.context@.well_formed(),
            self.context@.asked is None,
        ensures
            tried.0.options == self.options,
            ({
                let (done, later) = all_left_v(
                    *expr,
                    around@,
                    self.context@,
                    *self.options,
                    *vocabulary,
                );
                match tried.1 {
                    Attempt::Done(left) => {
                        &&& later.asked is None
                        &&& left@ == done
                        &&& tried.0.context@ == later
                        &&& later.well_formed()
                    },
                    Attempt::Asks { wanted, span, start } => {
                        &&& later.asked is Some
                        &&& (later.asked->0).wanted == wanted
                        &&& (later.asked->0).span == span
                        &&& start == self.context@.steps.len()
                        &&& start <= (later.asked->0).at
                        &&& tried.0.context@ == later.rewound((later.asked->0).at as nat)
                        &&& tried.0.context@.steps == later.steps.take((later.asked->0).at as int)
                        &&& forall|lowered: ContextV| #[trigger]
                            grows(tried.0.context@, lowered) ==> lowered.rewound(start as nat)
                                == self.context@
                    },
                }
            }),
    {
        let ghost before = self.context@;
        let mut this = self;
        let start = this.context.steps_len();
        let left = this.leave_expression(expr, around, vocabulary);
        proof {
            leaving_grows(expr, around@, before, *self.options, *vocabulary);
            reveal(grows);
        }
        match this.context.asked_for() {
            None => (this, Attempt::Done(left)),
            Some(Asking { wanted, span, at }) => {
                let ghost later = this.context@;
                // As many steps as were taken fit a `usize`.
                let _ = this.context.steps_len();
                let options = this.options;
                let context = this.context.rewind(at);
                proof {
                    rewinding_keeps_steps(later, at as nat);
                    assert forall|lowered: ContextV| #[trigger]
                        grows(context@, lowered) implies lowered.rewound(start as nat) == before by {
                        assert(before.steps =~= lowered.steps.take(start as int)) by {
                            let a = lowered.steps.take(at as int);
                            assert(a == context@.steps);
                            let b = later.steps.take(at as int);
                            assert(later.steps.take(start as int) =~= b.take(start as int));
                            assert(lowered.steps.take(start as int) =~= a.take(start as int));
                        }
                        rewinding_undoes(before, lowered);
                    }
                }
                (SolidTransform { options, context }, Attempt::Asks { wanted, span, start })
            },
        }
    }
}

// ---------------------------------------------------------------------------
// Laws
// ---------------------------------------------------------------------------

/// What is done holds no JSX any more.
pub proof fn resolved_has_no_jsx(
    expr: ExprV,
    limit: nat,
    ctx: ContextV,
    options: TransformOptions,
    vocabulary: Vocabulary,
)
    ensures
        resolved_v(expr, limit, ctx, options, vocabulary).0 matches ResolutionV::Done(done)
            ==> first_jsx(done) is None,
    decreases limit,
{
    search_is_apart(expr, null_v(no_span()), null_v(no_span()));
    if let Some(node) = first_jsx(expr) {
        if limit > 0 {
            let (exit, next) = node_exit_v(node.kind, ctx, options, vocabulary);
            if let ExitV::Dom(by) = exit {
                resolved_has_no_jsx(
                    with_first(expr, by),
                    (limit - 1) as nat,
                    next,
                    options,
                    vocabulary,
                );
            }
        }
    }
}

/// Where none is left over, more JSX may be allowed.
pub proof fn more_changes_nothing(
    expr: ExprV,
    limit: nat,
    more: nat,
    ctx: ContextV,
    options: TransformOptions,
    vocabulary: Vocabulary,
)
    requires
        is_finished(expr, limit, ctx, options, vocabulary),
    ensures
        resolved_v(expr, limit + more, ctx, options, vocabulary) == resolved_v(
            expr,
            limit,
            ctx,
            options,
            vocabulary,
        ),
    decreases limit,
{
    if let Some(node) = first_jsx(expr) {
        let (exit, next) = node_exit_v(node.kind, ctx, options, vocabulary);
        if let ExitV::Dom(by) = exit {
            more_changes_nothing(
                with_first(expr, by),
                (limit - 1) as nat,
                more,
                next,
                options,
                vocabulary,
            );
            assert((limit + more - 1) as nat == (limit - 1) as nat + more);
        }
    }
}

/// Where `limit` JSX leave none over, they are as many as it takes.
pub proof fn enough_is_enough(
    expr: ExprV,
    limit: nat,
    ctx: ContextV,
    options: TransformOptions,
    vocabulary: Vocabulary,
)
    requires
        is_finished(expr, limit, ctx, options, vocabulary),
    ensures
        all_resolved_v(expr, ctx, options, vocabulary) == resolved_v(
            expr,
            limit,
            ctx,
            options,
            vocabulary,
        ),
{
    assert forall|other: nat| other >= limit implies #[trigger] is_finished(
        expr,
        other,
        ctx,
        options,
        vocabulary,
    ) by {
        more_changes_nothing(expr, limit, (other - limit) as nat, ctx, options, vocabulary);
    }
    assert(finished_from(limit, expr, ctx, options, vocabulary));
    let n = choose|n: nat| #[trigger] finished_from(n, expr, ctx, options, vocabulary);
    assert(is_finished(expr, n, ctx, options, vocabulary));
    if n >= limit {
        more_changes_nothing(expr, limit, (n - limit) as nat, ctx, options, vocabulary);
    } else {
        more_changes_nothing(expr, n, (limit - n) as nat, ctx, options, vocabulary);
    }
}

/// Where `limit` JSX leave an expression that the walk leaves finished, they are
/// as many as it takes.
pub proof fn enough_is_left(
    expr: &Expr,
    around: Seq<Surrounding>,
    limit: nat,
    ctx: ContextV,
    options: TransformOptions,
    vocabulary: Vocabulary,
)
    requires
        !(left_v(*expr, around, limit, ctx, options, vocabulary).0 matches LeftV::Resolved(
            ResolutionV::Unfinished(_),
        )),
    ensures
        all_left_v(*expr, around, ctx, options, vocabulary) == left_v(
            *expr,
            around,
            limit,
            ctx,
            options,
            vocabulary,
        ),
{
    leaving_ends(expr, around, ctx, options, vocabulary);
    let n = choose|n: nat| #[trigger] left_from(n, *expr, around, ctx, options, vocabulary);
    let whole = left_v(*expr, around, n, ctx, options, vocabulary);
    assert(!(whole.0 matches LeftV::Resolved(ResolutionV::Unfinished(_))));
    let (exit, after) = exit_v(*expr, around, ctx, options, vocabulary);
    if let ExitV::Dom(by) = exit {
        assert(is_finished(by, limit, after, options, vocabulary));
        assert(is_finished(by, n, after, options, vocabulary));
        enough_is_enough(by, limit, after, options, vocabulary);
        enough_is_enough(by, n, after, options, vocabulary);
    }
}

/// An expression without JSX stays as it is, and the file with it.
pub proof fn without_jsx_nothing_is_resolved(
    expr: ExprV,
    limit: nat,
    ctx: ContextV,
    options: TransformOptions,
    vocabulary: Vocabulary,
)
    requires
        first_jsx(expr) is None,
    ensures
        resolved_v(expr, limit, ctx, options, vocabulary) == (ResolutionV::Done(expr), ctx),
        forall|by: ExprV| #[trigger] with_first(expr, by) == expr,
{
    assert forall|by: ExprV| #[trigger] with_first(expr, by) == expr by {
        search_is_apart(expr, by, null_v(no_span()));
    }
}

/// Leaving an expression leaves all that the file has gathered.
pub proof fn leaving_grows(
    expr: &Expr,
    around: Seq<Surrounding>,
    ctx: ContextV,
    options: TransformOptions,
    vocabulary: Vocabulary,
)
    ensures
        grows(ctx, all_left_v(*expr, around, ctx, options, vocabulary).1),
{
    broadcast use group_growth;

    let n = choose|n: nat| #[trigger] left_from(n, *expr, around, ctx, options, vocabulary);
    exit_grows(expr, around, ctx, options, vocabulary);
    let (exit, next) = exit_v(*expr, around, ctx, options, vocabulary);
    if let ExitV::Dom(by) = exit {
        resolving_grows(by, n, next, options, vocabulary);
    }
}

/// Going through an expression leaves all that the file has gathered.
pub proof fn resolving_grows(
    expr: ExprV,
    limit: nat,
    ctx: ContextV,
    options: TransformOptions,
    vocabulary: Vocabulary,
)
    ensures
        grows(ctx, resolved_v(expr, limit, ctx, options, vocabulary).1),
    decreases limit,
{
    broadcast use group_growth;

    if let Some(node) = first_jsx(expr) {
        if limit > 0 {
            let (exit, next) = node_exit_v(node.kind, ctx, options, vocabulary);
            assert(grows(ctx, next)) by {
                match &node.kind {
                    KindV::JsxElement(element) => {
                        jsx_element_grows(element, root_info(true), ctx, options, vocabulary);
                        let made = jsx_element_v(*element, root_info(true), ctx, options, vocabulary);
                        output_grows(made.1, made.0, vocabulary);
                    },
                    KindV::JsxFragment(fragment) => {
                        fragment_grows(fragment, root_info(false), ctx, options, vocabulary);
                        let made = fragment_v(*fragment, root_info(false), ctx, options, vocabulary);
                        output_grows(made.1, made.0, vocabulary);
                    },
                    _ => {},
                }
            }
            if let ExitV::Dom(by) = exit {
                resolving_grows(
                    with_first(expr, by),
                    (limit - 1) as nat,
                    next,
                    options,
                    vocabulary,
                );
            }
        }
    }
}

} // verus!
