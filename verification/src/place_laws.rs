//! Where the nodes of an element are, and what is put there.

use crate::ast::{Expr, ExprV, JsxChild, JsxElement, JsxText, KindV, PatternV, Span, StmtV};
use crate::attributes::el_v;
use crate::element::{
    expr_child_v, finished_v, identified_v, is_parted, no_hydration_v, owned_v, text_child_v,
    walk_v,
};
use crate::handler_laws::{a_fresh_name_is_a_variable, a_variable_is_itself, is_variable};
use crate::info::InfoV;
use crate::ir::{ContextV, HelperSource, ResultV};
use crate::options::TransformOptions;
use crate::place::{
    insert_call_v, insertion_v, markers_v, nearest, placeholder_v, sibling_path, siblings_v, PlaceV,
    Setting, StateV,
};
use crate::scan::{anchor_from, text_before, text_behind, text_of};
use crate::shape::{arg, assigns_to, callee, calls_helper, is_call, is_name, is_text, reads_of};
use crate::text::escape_html_v;
use crate::text_laws::unescaped;
use crate::vocabulary::Vocabulary;
use vstd::prelude::*;

verus! {

// ---------------------------------------------------------------------------
// Where
// ---------------------------------------------------------------------------

/// An expression gives the child number `k` of a parent, whose children before
/// are held by these variables, or by none.
pub open spec fn denotes(
    expr: ExprV,
    parent: ExprV,
    held: Seq<Option<Seq<char>>>,
    k: int,
) -> bool
    decreases expr,
{
    match expr.kind {
        KindV::Ident { name, .. } => 0 <= k < held.len() && held[k] == Some(name),
        KindV::Member { object, property, optional } => !optional && ((property == "nextSibling"@
            && denotes(*object, parent, held, k - 1)) || (property == "firstChild"@ && *object
            == parent && k == 0)),
        _ => false,
    }
}

/// All names of a place are variables.
pub open spec fn is_named_well(held: Seq<Option<Seq<char>>>) -> bool {
    forall|i: int| 0 <= i < held.len() && (#[trigger] held[i]) is Some ==> is_variable(held[i]->0)
}

proof fn nearest_is_last(passed: Seq<Option<Seq<char>>>)
    ensures
        nearest(passed) matches Some((steps, id)) ==> 1 <= steps <= passed.len()
            && passed[passed.len() - steps] == Some(id),
        nearest(passed) is None ==> forall|i: int|
            0 <= i < passed.len() ==> (#[trigger] passed[i]) is None,
    decreases passed.len(),
{
    if passed.len() > 0 && passed.last() is None {
        nearest_is_last(passed.drop_last());
        assert forall|i: int| 0 <= i < passed.len() && nearest(passed) is None implies (
        #[trigger] passed[i]) is None by {
            if i < passed.len() - 1 {
                assert(passed.drop_last()[i] == passed[i]);
            }
        }
    }
}

proof fn siblings_are_further(
    expr: ExprV,
    parent: ExprV,
    held: Seq<Option<Seq<char>>>,
    k: int,
    n: nat,
)
    requires
        denotes(expr, parent, held, k),
    ensures
        denotes(siblings_v(expr, n), parent, held, k + n),
    decreases n,
{
    if n > 0 {
        siblings_are_further(expr, parent, held, k, (n - 1) as nat);
    }
}

/// The accessor of a place gives the child that stands there: the one behind all
/// that were passed.
pub proof fn an_accessor_reaches_its_child(place: PlaceV, parent: Seq<char>)
    requires
        is_named_well(place.passed),
    ensures
        denotes(
            place.accessor(parent),
            el_v(parent),
            place.passed,
            place.passed.len() as int,
        ),
{
    nearest_is_last(place.passed);
    reveal_strlit("nextSibling");
    reveal_strlit("firstChild");
    match nearest(place.passed) {
        Some((steps, id)) => {
            a_variable_is_itself(id);
            siblings_are_further(
                el_v(id),
                el_v(parent),
                place.passed,
                place.passed.len() - steps,
                steps,
            );
        },
        None => {
            let first = crate::attributes::mem_v(el_v(parent), "firstChild"@);
            siblings_are_further(first, el_v(parent), place.passed, 0, place.passed.len());
        },
    }
}

proof fn walking_adds_up(root: Seq<char>, path: Seq<Seq<char>>, n: nat)
    ensures
        walk_v(root, path + sibling_path(n)) == siblings_v(walk_v(root, path), n),
    decreases n,
{
    if n == 0 {
        assert(path + sibling_path(0) =~= path);
    } else {
        walking_adds_up(root, path, (n - 1) as nat);
        let all = path + sibling_path(n);
        assert(all.drop_last() =~= path + sibling_path((n - 1) as nat));
        assert(all.last() == "nextSibling"@);
    }
}

/// The walk to a place leads to the child that stands there, from its parent or
/// from a variable that is nearer.
pub proof fn a_walk_reaches_its_child(place: PlaceV, root: Seq<char>, path: Seq<Seq<char>>)
    requires
        is_named_well(place.passed),
        place.here matches Some(id) ==> is_variable(id),
    ensures
        place.walk_root(Some(root)) is Some,
        denotes(
            walk_v(place.walk_root(Some(root))->0, place.walk_path(path)),
            walk_v(root, path),
            place.passed.push(place.here),
            place.passed.len() as int,
        ),
{
    let parent = walk_v(root, path);
    let held = place.passed.push(place.here);
    match place.here {
        Some(id) => {
            a_variable_is_itself(id);
            assert(held[place.passed.len() as int] == Some(id));
        },
        None => {
            nearest_is_last(place.passed);
            match nearest(place.passed) {
                Some((steps, id)) => {
                    a_variable_is_itself(id);
                    walking_adds_up(id, seq![], steps);
                    assert(seq![] + sibling_path(steps) =~= sibling_path(steps));
                    assert(held[place.passed.len() - steps] == Some(id));
                    siblings_are_further(
                        el_v(id),
                        parent,
                        held,
                        place.passed.len() - steps,
                        steps,
                    );
                },
                None => {
                    let down = path.push("firstChild"@);
                    walking_adds_up(root, down, place.passed.len());
                    assert(down.drop_last() =~= path);
                    let first = walk_v(root, down);
                    assert(first == crate::attributes::mem_v(parent, "firstChild"@));
                    siblings_are_further(first, parent, held, 0, place.passed.len());
                },
            }
        },
    }
}

/// A node that is declared is the child that stands at the place, and holds the
/// place from then on.
pub proof fn a_declared_node_is_the_child(state: StateV, parent: Seq<char>, id: Seq<char>)
    requires
        is_named_well(state.place.passed),
    ensures
        ({
            let done = state.declared(parent, id);
            &&& done.result.declarations.len() == state.result.declarations.len() + 1
            &&& done.result.declarations.last().pattern == PatternV::Ident(id)
            &&& denotes(
                done.result.declarations.last().init,
                el_v(parent),
                state.place.passed,
                state.place.passed.len() as int,
            )
            &&& done.place.here == Some(id)
            &&& done.place.advanced().passed == state.place.passed.push(Some(id))
            &&& done.place.advanced().here is None
        }),
{
    an_accessor_reaches_its_child(state.place, parent);
}

// ---------------------------------------------------------------------------
// What
// ---------------------------------------------------------------------------

/// An expression inserts a value into a parent, with `n` arguments in all.
pub open spec fn inserts(
    expr: ExprV,
    local: Seq<char>,
    parent: Seq<char>,
    value: ExprV,
    n: nat,
) -> bool {
    &&& is_call(expr, n)
    &&& is_name(callee(expr), local)
    &&& n >= 2
    &&& is_name(arg(expr, 0), parent)
    &&& arg(expr, 1) == value
}

/// A call of the helper `insert` is given the parent before all else.
pub proof fn an_insertion_is_called(
    result: ResultV,
    ctx: ContextV,
    span: Span,
    parent: Seq<char>,
    args: Seq<ExprV>,
)
    requires
        is_variable(parent),
        args.len() > 0,
    ensures
        ({
            let done = insert_call_v(result, ctx, span, parent, args).0;
            &&& done.exprs.len() == result.exprs.len() + 1
            &&& done.exprs.drop_last() == result.exprs
            &&& inserts(
                done.exprs.last(),
                ctx.import("insert"@, HelperSource::Dom).1,
                parent,
                args[0],
                1 + args.len(),
            )
            &&& forall|i: int|
                0 <= i < args.len() ==> arg(done.exprs.last(), i + 1) == #[trigger] args[i]
        }),
{
    a_variable_is_itself(parent);
    let done = insert_call_v(result, ctx, span, parent, args).0;
    assert(done.exprs.drop_last() =~= result.exprs);
}

/// Two markers stand in the template where a hydrated element has a hole; the
/// first is declared where it stands, and the helper finds the second and what is
/// between them.
pub proof fn markers_stand_round_a_hole(state: StateV, parent: Seq<char>)
    requires
        is_named_well(state.place.passed),
    ensures
        ({
            let (done, marker, content) = markers_v(state, parent);
            let n = state.result.declarations.len() as int;
            let all = done.result.declarations;
            &&& done.result.template == state.result.template + "<!$>"@ + "<!/>"@
            &&& done.result.closed == state.result.closed + "<!$>"@ + "<!/>"@
            &&& all.len() == n + 2
            &&& all[n].pattern is Ident
            &&& denotes(
                all[n].init,
                el_v(parent),
                state.place.passed,
                state.place.passed.len() as int,
            )
            &&& all[n + 1].pattern == PatternV::Array(seq![marker, content])
            &&& calls_helper(all[n + 1].init, "getNextMarker"@, 1)
            &&& reads_of(arg(all[n + 1].init, 0), all[n].pattern->Ident_0, "nextSibling"@)
            &&& done.place.passed == state.place.passed.push(
                Some(all[n].pattern->Ident_0),
            ).push(Some(marker))
            &&& done.result.exprs == state.result.exprs
        }),
{
    reveal(markers_v);
    let begun = state.with_both("<!$>"@);
    let opened = begun.declared_fresh(parent);
    a_fresh_name_is_a_variable(begun.ctx, "el$"@);
    a_variable_is_itself(opened.1);
    an_accessor_reaches_its_child(state.place, parent);
    let (done, marker, content) = markers_v(state, parent);
    assert(done.result.template =~= state.result.template + "<!$>"@ + "<!/>"@);
    assert(done.result.closed =~= state.result.closed + "<!$>"@ + "<!/>"@);
}

/// A placeholder stands in the template between two texts, and is the child that
/// was declared for it.
pub proof fn a_placeholder_stands_between_texts(
    state: StateV,
    parent: Seq<char>,
    children: Seq<JsxChild>,
    at: nat,
    setting: Setting,
    options: TransformOptions,
    vocabulary: Vocabulary,
)
    requires
        is_named_well(state.place.passed),
    ensures
        ({
            let (done, id) = placeholder_v(
                state,
                parent,
                children,
                at,
                setting,
                options,
                vocabulary,
            );
            match state.place.placeholder {
                Some(held) => done == state && id == held,
                None => {
                    &&& done.result.template == state.result.template + "<!>"@
                    &&& done.result.declarations.len() == state.result.declarations.len() + 1
                    &&& done.result.declarations.last().pattern == PatternV::Ident(id)
                    &&& denotes(
                        done.result.declarations.last().init,
                        el_v(parent),
                        state.place.passed,
                        state.place.passed.len() as int,
                    )
                    &&& done.place.placeholder == Some(id)
                    &&& done.place.passed == state.place.passed.push(Some(id))
                },
            }
        }),
{
    reveal(placeholder_v);
    if state.place.placeholder is None {
        let kept = crate::place::kept_for_v(
            state,
            children,
            at,
            setting,
            false,
            options,
            vocabulary,
        );
        assert(kept.place.passed == state.place.passed);
        an_accessor_reaches_its_child(kept.place, parent);
    }
}

/// A value is inserted into its parent: alone where it is the only child, before
/// its marker where the element is hydrated, before the placeholder between two
/// texts, before the next node that stands in the template, and else last.
pub proof fn a_value_is_inserted(
    start: StateV,
    span: Span,
    value: ExprV,
    parent: Seq<char>,
    children: Seq<JsxChild>,
    at: nat,
    setting: Setting,
    options: TransformOptions,
    vocabulary: Vocabulary,
)
    requires
        is_variable(parent),
    ensures
        ({
            let done = insertion_v(
                start,
                span,
                value,
                parent,
                children,
                at,
                setting,
                options,
                vocabulary,
            );
            let call = done.result.exprs.last();
            let alone = setting.single || (!(setting.hydratable && setting.multi) && !(text_before(
                children,
                at,
            ) && text_behind(children, at as int)) && !setting.multi);
            let marked = !setting.single && setting.hydratable && setting.multi;
            &&& done.result.exprs.len() == start.result.exprs.len() + 1
            &&& done.result.exprs.drop_last() == start.result.exprs
            &&& call.kind is Call && call.kind->Call_args.len() >= 2
            &&& is_call(call, call.kind->Call_args.len())
            &&& is_name(arg(call, 0), parent)
            &&& arg(call, 1) == value
            &&& alone <==> call.kind->Call_args.len() == 2
            &&& marked <==> call.kind->Call_args.len() == 4
            &&& !alone && !marked && !(text_before(children, at) && text_behind(
                children,
                at as int,
            )) && !anchor_from(children, (at + 1) as int) ==> arg(call, 2).kind is Null
            &&& !alone && !marked && (text_before(children, at) && text_behind(children, at as int))
                ==> done.place.placeholder is Some && arg(call, 2) == el_v(
                done.place.placeholder->0,
            )
            &&& marked ==> (done.result.declarations.last().pattern matches PatternV::Array(ids)
                && ids.len() == 2 && arg(call, 2) == el_v(ids[0]) && arg(call, 3) == el_v(ids[1]))
            &&& !alone && !marked && !(text_before(children, at) && text_behind(
                children,
                at as int,
            )) && anchor_from(children, (at + 1) as int) ==> (
            done.result.declarations.last().pattern matches PatternV::Ident(id) && arg(call, 2)
                == el_v(id))
            &&& exists|ctx: ContextV|
                is_name(callee(call), (#[trigger] ctx.import("insert"@, HelperSource::Dom)).1)
        }),
{
    reveal(insertion_v);
    reveal(markers_v);
    reveal(placeholder_v);
    a_variable_is_itself(parent);
    let done = insertion_v(
        start,
        span,
        value,
        parent,
        children,
        at,
        setting,
        options,
        vocabulary,
    );
    assert(done.result.exprs.drop_last() =~= start.result.exprs);
}

// ---------------------------------------------------------------------------
// Elements
// ---------------------------------------------------------------------------

/// An element is held by the variable that was set for it, or by a fresh one,
/// which is declared by the walk to it, or by the helper that finds the next
/// element of its tag.
pub proof fn an_element_is_held(
    span: Span,
    info: InfoV,
    result: ResultV,
    ctx: ContextV,
    hydratable: bool,
)
    ensures
        ({
            let done = identified_v(span, info, result, ctx, hydratable).0;
            let n = result.declarations.len() as int;
            &&& done.id is Some
            &&& done.exprs == result.exprs && done.template == result.template
            &&& info.path.len() == 0 ==> done.declarations == result.declarations && (
            info.root_id is Some ==> done.id == info.root_id)
            &&& info.path.len() > 0 && info.forced_id is Some ==> done.id == info.forced_id
            &&& info.path.len() > 0 && info.root_id is Some ==> {
                let init = done.declarations[n].init;
                let walk = walk_v(info.root_id->0, info.path);
                &&& done.declarations.len() == n + 1
                &&& done.declarations[n].pattern == PatternV::Ident(done.id->0)
                &&& if hydratable && info.match_tag is Some {
                    calls_helper(init, "getNextMatch"@, 2) && arg(init, 0) == walk && is_text(
                        arg(init, 1),
                        info.match_tag->0,
                    )
                } else {
                    init == walk
                }
            }
        }),
{
    reveal(identified_v);
}

/// A custom element and a slot are told their owner.
pub proof fn a_custom_element_is_told_its_owner(
    element: JsxElement,
    result: ResultV,
    ctx: ContextV,
    options: TransformOptions,
)
    requires
        result.id matches Some(id) ==> is_variable(id),
    ensures
        ({
            let done = owned_v(element, result, ctx, options).0;
            let told = options.context_to_custom_elements && (element.tag@ == "slot"@
                || crate::scan::is_custom(element)) && result.id is Some;
            &&& !told ==> done == result
            &&& told ==> done.exprs.len() == result.exprs.len() + 1 && (
            done.exprs.last().kind matches KindV::Assign { value, .. } && assigns_to(
                done.exprs.last(),
                result.id->0,
                "_$owner"@,
                *value,
            ) && calls_helper(*value, "getOwner"@, 0))
        }),
{
    reveal(owned_v);
    if let Some(id) = result.id {
        a_variable_is_itself(id);
    }
}

/// The head of a hydrated page is not hydrated.
pub proof fn a_head_is_not_hydrated(span: Span)
    ensures
        calls_helper(no_hydration_v(span), "createComponent"@, 2),
        is_name(arg(no_hydration_v(span), 0), "_$"@ + "NoHydration"@),
        arg(no_hydration_v(span), 1).kind matches KindV::Object(props) && props.len() == 0,
{
}

/// Events that came before an element was hydrated are run at its end, where one
/// of its events can.
pub proof fn events_are_run_at_the_end(
    element: JsxElement,
    info: InfoV,
    result: ResultV,
    ctx: ContextV,
    options: TransformOptions,
    vocabulary: Vocabulary,
)
    ensures
        ({
            let done = finished_v(element, info, result, ctx, options, vocabulary).0;
            let runs = info.top_level && options.hydratable && result.has_hydratable_event;
            &&& done.exprs == result.exprs && done.statements == result.statements && done.dynamics
                == result.dynamics && done.declarations == result.declarations
            &&& runs ==> done.post_exprs.len() == result.post_exprs.len() + 1 && calls_helper(
                done.post_exprs.last(),
                "runHydrationEvents"@,
                0,
            )
            &&& !runs ==> done.post_exprs == result.post_exprs
        }),
{
    reveal(finished_v);
}

/// What a result does, in order: its statements, and then its expressions.
pub open spec fn done_by(result: ResultV) -> Seq<StmtV> {
    result.statements + Seq::new(result.exprs.len(), |i: int| StmtV::Expr(result.exprs[i]))
}

/// What an element and then its child do is done in this order, and nothing of
/// either is lost.
pub proof fn a_child_comes_behind(result: ResultV, child: ResultV)
    ensures
        ({
            let both = result.with_child(child);
            &&& done_by(both) == done_by(result) + done_by(child)
            &&& both.declarations == result.declarations + child.declarations
            &&& both.dynamics == result.dynamics + child.dynamics
            &&& both.post_exprs == result.post_exprs + child.post_exprs
            &&& both.has_custom_element <==> result.has_custom_element || child.has_custom_element
            &&& both.is_import_node <==> result.is_import_node || child.is_import_node
            &&& both.has_hydratable_event <==> result.has_hydratable_event
                || child.has_hydratable_event
            &&& both.id == result.id && both.tag_name == result.tag_name
        }),
{
    let both = result.with_child(child);
    assert(crate::merge::as_statements(result.exprs) =~= Seq::new(
        result.exprs.len(),
        |i: int| StmtV::Expr(result.exprs[i]),
    ));
    assert(done_by(both) =~= done_by(result) + done_by(child));
}

/// The template of a child stands behind that of its parent.
pub proof fn a_template_stands_behind(result: ResultV, child: ResultV)
    ensures
        result.with_child_template(child).template == result.template + child.template,
        child.closed.len() > 0 ==> result.with_child_template(child).closed == result.closed
            + child.closed,
        child.closed.len() == 0 ==> result.with_child_template(child).closed == result.closed
            + child.template,
{
}

/// A text in an element stands in the template.
pub proof fn a_text_stands_in_the_template(
    text: JsxText,
    children: Seq<JsxChild>,
    at: nat,
    setting: Setting,
    state: StateV,
    options: TransformOptions,
    vocabulary: Vocabulary,
)
    ensures
        ({
            let done = text_child_v(text, children, at, setting, state, options, vocabulary);
            let shown = if text.content@.len() == 0 {
                seq![]
            } else if is_parted(text, crate::element::child_at(children, (at + 1) as int)) {
                text.content@ + seq![' ']
            } else {
                text.content@
            };
            &&& done.result.template == state.result.template + shown
            &&& done.result.exprs == state.result.exprs
            &&& done.result.dynamics == state.result.dynamics
        }),
{
    reveal(text_child_v);
    reveal(crate::place::text_walk_v);
    reveal_strlit(" ");
    assert(" "@ =~= seq![' ']);
    let done = text_child_v(text, children, at, setting, state, options, vocabulary);
    let shown = if text.content@.len() == 0 {
        seq![]
    } else if is_parted(text, crate::element::child_at(children, (at + 1) as int)) {
        text.content@ + seq![' ']
    } else {
        text.content@
    };
    assert(done.result.template =~= state.result.template + shown);
}

/// An expression of a known text stands in the template, escaped; any other is
/// inserted into the element.
pub proof fn a_known_expression_stands_in_the_template(
    span: Span,
    expr: Expr,
    children: Seq<JsxChild>,
    at: nat,
    setting: Setting,
    state: StateV,
    options: TransformOptions,
    vocabulary: Vocabulary,
)
    requires
        text_of(expr) is Some,
    ensures
        ({
            let done = expr_child_v(
                span,
                expr,
                children,
                at,
                setting,
                state,
                options,
                vocabulary,
            );
            let n = state.result.template.len() as int;
            &&& done.result.template.len() >= n
            &&& done.result.template.take(n) == state.result.template
            &&& unescaped(done.result.template.skip(n)) == text_of(expr)->0
            &&& done.result.exprs == state.result.exprs
            &&& done.result.dynamics == state.result.dynamics
        }),
{
    reveal(expr_child_v);
    reveal(crate::place::text_walk_v);
    let text = text_of(expr)->0;
    crate::text_laws::an_escaped_text_reads_back(text, false);
    let done = expr_child_v(span, expr, children, at, setting, state, options, vocabulary);
    let n = state.result.template.len() as int;
    let shown = if text.len() > 0 {
        escape_html_v(text, false)
    } else {
        seq![]
    };
    assert(done.result.template =~= state.result.template + shown);
    assert(done.result.template.take(n) =~= state.result.template);
    assert(done.result.template.skip(n) =~= shown);
    if text.len() == 0 {
        assert(unescaped(shown) =~= text);
    }
}

} // verus!
