//! The content and the attributes of an element that is rendered on the server.

use crate::ast::{Expr, ExprV, JsxAttr, JsxAttribute, JsxElement, JsxValue, Kind, KindV, LogicalOp};
use crate::escape::spaced_v;
use crate::escape_laws::{
    an_escaped_expression_is_safe, bared, escaping_is_undone, is_safe,
    what_may_be_empty_shows_a_blank,
};
use crate::marker::static_marker;
use crate::options::TransformOptions;
use crate::peel::literal_text_v;
use crate::server_element_laws::{is_shown_as, is_value_of};
use crate::server_laws::extends;
use crate::shape::{arg, calls_helper, is_text, is_thunk};
use crate::ssr::{component_v, PartV, RequestV, SsrContextV, SsrResultV};
use crate::ssr_attribute::{attr_v, expr_attr_v};
use crate::ssr_attributes::{
    all_given_in_v, attributes_v, merged_object_v, namespace_object_v, plan_v, set_each_v,
    set_one_v, NamespacePropertyV, PlanV, SetV,
};
use crate::ssr_element::{
    content_of_v, element_call_v, given_content_v, result_node_v, spread_argument_v,
    spread_element_v,
};
use crate::text::{escape_html_v, starts_with};
use crate::text_laws::an_escaped_text_reads_back;
use crate::vocabulary::Vocabulary;
use vstd::prelude::*;

verus! {

// ---------------------------------------------------------------------------
// Content
// ---------------------------------------------------------------------------

/// A value is shown as text, or as a blank where it is empty.
pub open spec fn is_shown_or_blank(shown: ExprV, value: KindV) -> bool {
    shown.kind matches KindV::Logical { op, left, right } && op == LogicalOp::Or && is_text(
        *right,
        " "@,
    ) && is_safe(*left, false) && bared(*left, false).kind == value
}

proof fn an_escaped_text_is_shown(text: Seq<char>)
    ensures
        is_shown_as(escape_html_v(text, false), text, false),
{
    crate::server_element_laws::a_text_is_shown(text, false);
    an_escaped_text_reads_back(text, false);
}

/// Markup that is given is written as it is.
pub proof fn given_markup_is_written(
    attr: JsxAttribute,
    result: SsrResultV,
    ctx: SsrContextV,
    options: TransformOptions,
)
    requires
        attr.key@ == "innerHTML"@,
    ensures
        match (attr.value, content_of_v(JsxAttr::Named(attr), result, ctx, options)) {
            (JsxValue::Container { expr: Some(expr), .. }, Some(done)) => done.1 == ctx && extends(
                result,
                done.0,
                seq![
                    match literal_text_v(expr@) {
                        Some(text) => PartV::Static(text),
                        None => PartV::Dynamic(expr@),
                    },
                ],
            ),
            (JsxValue::Container { expr: Some(_), .. }, None) => false,
            (_, done) => done is None,
        },
{
    reveal(content_of_v);
    if let JsxValue::Container { expr: Some(expr), .. } = attr.value {
        let done = content_of_v(JsxAttr::Named(attr), result, ctx, options)->0;
        assert(done.0.parts =~= result.parts + seq![
            match literal_text_v(expr@) {
                Some(text) => PartV::Static(text),
                None => PartV::Dynamic(expr@),
            },
        ]);
    }
}

/// The text that is given for an element.
pub open spec fn known_text(value: JsxValue) -> Option<Seq<char>> {
    match value {
        JsxValue::Str { value, .. } => Some(value@),
        JsxValue::Container { expr: Some(expr), .. } => literal_text_v(expr@),
        _ => None,
    }
}

/// Text that is given is written escaped.
pub proof fn given_text_is_escaped(
    attr: JsxAttribute,
    result: SsrResultV,
    ctx: SsrContextV,
    options: TransformOptions,
)
    requires
        attr.key@ == "textContent"@ || attr.key@ == "innerText"@,
        known_text(attr.value) is Some,
    ensures
        content_of_v(JsxAttr::Named(attr), result, ctx, options) matches Some(done) && done.1 == ctx
            && done.0.parts.len() == result.parts.len() + 1 && (done.0.parts.last() matches
            PartV::Static(shown) && is_shown_as(shown, known_text(attr.value)->0, false)
            && extends(result, done.0, seq![PartV::Static(shown)])),
{
    reveal(content_of_v);
    reveal_strlit("innerHTML");
    reveal_strlit("textContent");
    reveal_strlit("innerText");
    assert("innerHTML"@[5] != "innerText"@[5]);
    assert("innerHTML"@[0] != "textContent"@[0]);
    let text = known_text(attr.value)->0;
    an_escaped_text_is_shown(text);
    let done = content_of_v(JsxAttr::Named(attr), result, ctx, options)->0;
    assert(done.0.parts =~= result.parts + seq![PartV::Static(escape_html_v(text, false))]);
}

/// A value that is given as text is held by a request: as a function where it may
/// change and no comment says that it stays, and else as itself.
pub proof fn a_given_value_is_held(
    attr: JsxAttribute,
    result: SsrResultV,
    ctx: SsrContextV,
    options: TransformOptions,
)
    requires
        attr.key@ == "textContent"@ || attr.key@ == "innerText"@,
        attr.value is Container,
        attr.value->expr is Some,
        known_text(attr.value) is None,
    ensures
        content_of_v(JsxAttr::Named(attr), result, ctx, options) matches Some(done)
            && done.0.parts.len() == result.parts.len() + 2 && (done.0.parts.last() matches
            PartV::Dynamic(hole) && (done.1.requests.last() matches RequestV::Hoist {
            expr: value,
            grouped,
            post,
            plain,
        } && hole.kind == KindV::Hole((done.1.requests.len() - 1) as usize) && !grouped && !post && {
            let expr = *(attr.value->expr->0);
            let changes = expr.facts.dynamic && !static_marker(
                ctx.source,
                attr.value->Container_span,
                options.static_marker@,
            );
            &&& plain <==> !changes
            &&& changes ==> exists|inner: ExprV|
                is_thunk(value, inner) && #[trigger] is_shown_or_blank(inner, expr@.kind)
            &&& !changes ==> is_shown_or_blank(value, expr@.kind)
        })),
{
    reveal(content_of_v);
    reveal_strlit("innerHTML");
    reveal_strlit("textContent");
    reveal_strlit("innerText");
    assert("innerHTML"@[5] != "innerText"@[5]);
    assert("innerHTML"@[0] != "textContent"@[0]);
    let expr = *(attr.value->expr->0);
    let marked = static_marker(ctx.source, attr.value->Container_span, options.static_marker@);
    let bare = crate::attributes::cloned_v(expr, marked);
    what_may_be_empty_shows_a_blank(bare, ctx);
    let safe = spaced_v(bare, ctx);
    assert(is_shown_or_blank(safe.0, expr@.kind));
}

/// Only three names give content.
pub proof fn other_attributes_give_no_content(
    attr: JsxAttr,
    result: SsrResultV,
    ctx: SsrContextV,
    options: TransformOptions,
)
    ensures
        attr is Spread ==> content_of_v(attr, result, ctx, options) is None,
        attr matches JsxAttr::Named(named) ==> (named.key@ != "innerHTML"@ && named.key@
            != "textContent"@ && named.key@ != "innerText"@ ==> content_of_v(
            attr,
            result,
            ctx,
            options,
        ) is None),
{
    reveal(content_of_v);
}

/// The first attribute that gives content gives it.
pub proof fn the_first_content_counts(
    attrs: Seq<JsxAttr>,
    from: int,
    result: SsrResultV,
    ctx: SsrContextV,
    options: TransformOptions,
)
    requires
        0 <= from <= attrs.len(),
    ensures
        match given_content_v(attrs, from, result, ctx, options) {
            Some(done) => exists|i: int|
                from <= i < attrs.len() && #[trigger] content_of_v(attrs[i], result, ctx, options)
                    == Some(done) && forall|j: int|
                    from <= j < i ==> #[trigger] content_of_v(attrs[j], result, ctx, options)
                        is None,
            None => forall|i: int|
                from <= i < attrs.len() ==> #[trigger] content_of_v(attrs[i], result, ctx, options)
                    is None,
        },
    decreases attrs.len() - from,
{
    if from < attrs.len() {
        the_first_content_counts(attrs, from + 1, result, ctx, options);
    }
}

// ---------------------------------------------------------------------------
// Nodes
// ---------------------------------------------------------------------------

/// A result that is no expression yet is asked for, and its place is kept; one
/// that is an expression is put out as that.
pub proof fn a_result_has_its_place(result: SsrResultV, ctx: SsrContextV, element: JsxElement)
    ensures
        result.exprs.len() > 0 ==> ctx.put_out(result) == (ctx, result.exprs[0]),
        result.exprs.len() == 0 ==> ({
            let (after, hole) = ctx.put_out(result);
            &&& after.requests == ctx.requests.push(RequestV::Template(result))
            &&& hole.kind == KindV::Hole(ctx.requests.len() as usize)
        }),
        ({
            let (done, after) = component_v(element, ctx);
            &&& after.requests == ctx.requests.push(RequestV::Component(element))
            &&& done.exprs.len() == 1
            &&& done.exprs[0].kind == KindV::Hole(ctx.requests.len() as usize)
            &&& done.parts.len() == 0
            &&& done.span == element.span
        }),
{
}

/// A child of an element with a spread is one node, between markers where it is
/// an expression and these are asked for; an expression is escaped, except in a
/// script or a style sheet, and where it renders an element.
pub proof fn a_child_is_a_node(
    nodes: Seq<ExprV>,
    child: SsrResultV,
    skip_escape: bool,
    markers: bool,
    ctx: SsrContextV,
)
    ensures
        ({
            let (all, after) = result_node_v(nodes, child, skip_escape, markers, ctx);
            let special = child.exprs.len() > 0 && !child.spread_element;
            let at = nodes.len() as int + if markers && special {
                1int
            } else {
                0
            };
            &&& all.len() == nodes.len() + if markers && special {
                3nat
            } else {
                1
            }
            &&& all.take(nodes.len() as int) == nodes
            &&& markers && special ==> is_text(all[at - 1], "<!--$-->"@) && is_text(
                all[at + 1],
                "<!--/-->"@,
            )
            &&& child.exprs.len() > 0 ==> is_value_of(all[at], child, skip_escape)
            &&& child.exprs.len() == 0 ==> all[at].kind == KindV::Hole(
                ctx.requests.len() as usize,
            ) && after.requests == ctx.requests.push(RequestV::Template(child))
        }),
{
    let (all, after) = result_node_v(nodes, child, skip_escape, markers, ctx);
    if child.exprs.len() > 0 {
        escaping_is_undone(child.exprs[0], false, ctx);
        an_escaped_expression_is_safe(child.exprs[0], false, false, ctx);
    }
    assert(all.take(nodes.len() as int) =~= nodes);
}

/// An element with a spread is one call, of the helper that renders it by its
/// tag.
pub proof fn an_element_with_a_spread_is_one_call(
    element: &JsxElement,
    top_level: bool,
    ctx: SsrContextV,
    options: TransformOptions,
    vocabulary: Vocabulary,
)
    ensures
        ({
            let done = spread_element_v(*element, top_level, ctx, options, vocabulary).0;
            &&& done.spread_element
            &&& done.span == element.span
            &&& done.parts.len() == 0
            &&& done.exprs.len() == 1
            &&& calls_helper(done.exprs[0], "ssrElement"@, 4)
            &&& is_text(arg(done.exprs[0], 0), element.tag@)
        }),
{
    reveal(element_call_v);
    reveal_with_fuel(spread_element_v, 2);
}

/// What is spread is the expression itself; of a call `results()` it is the
/// function.
pub proof fn what_is_spread(expr: Expr)
    ensures
        match expr.kind {
            Kind::Call { callee, args, .. } => spread_argument_v(expr) == if args@.len() == 0
                && (callee.kind matches Kind::Ident { name, .. } && name@ == "results"@) {
                callee@
            } else {
                expr@
            },
            _ => spread_argument_v(expr) == expr@,
        },
{
}

// ---------------------------------------------------------------------------
// Attributes
// ---------------------------------------------------------------------------

/// An attribute is written for a value that was put together.
pub open spec fn sets_object(
    state: SetV,
    done: SetV,
    key: Seq<char>,
    object: ExprV,
    is_svg: bool,
    options: TransformOptions,
    vocabulary: Vocabulary,
) -> bool {
    exists|span: crate::ast::Span|
        (done.result, done.ctx) == #[trigger] expr_attr_v(
            key,
            object,
            span,
            is_svg,
            state.result,
            state.ctx,
            options,
            vocabulary,
        )
}

/// The value of an attribute with some properties added to it.
pub open spec fn with_added(attr: JsxAttribute, props: Seq<NamespacePropertyV>) -> Option<ExprV> {
    match attr.value {
        JsxValue::Container { expr: Some(expr), .. } => if props.len() > 0 {
            merged_object_v(expr@, props)
        } else {
            None
        },
        _ => None,
    }
}

/// Styles that are given one by one are written once, at the first of them, or
/// with the style that is given as a whole; so are classes.  Of several classes
/// only the one that counts is written, and other attributes each by itself.
pub proof fn an_attribute_is_set_in_its_place(
    attr: JsxAttribute,
    at: nat,
    plan: PlanV,
    is_svg: bool,
    state: SetV,
    options: TransformOptions,
    vocabulary: Vocabulary,
)
    ensures
        ({
            let done = set_one_v(
                JsxAttr::Named(attr),
                at,
                plan,
                is_svg,
                state,
                options,
                vocabulary,
            );
            let out = plan.dropped.contains(at) || (attr.key@ == "class"@ && plan.several_classes
                && plan.class_attr != Some(at));
            let style = !out && plan.style_places.contains(at);
            let class = !out && !style && plan.class_places.contains(at) && !plan.class_dropped;
            let first_style = style && plan.style_attr is None && !state.styled && at
                == plan.style_places[0];
            let first_class = class && plan.class_attr is None && !state.classed && at
                == plan.class_places[0];
            let rest = !out && !style && !class;
            let whole_style = rest && plan.style_attr == Some(at) && with_added(attr, plan.styles)
                is Some;
            let whole_class = rest && !whole_style && plan.class_attr == Some(at)
                && !plan.class_dropped && with_added(attr, plan.classes) is Some;
            &&& out ==> done == state
            &&& style && !first_style ==> done == state
            &&& class && !first_class ==> done == state
            &&& first_style ==> done.styled && sets_object(
                state,
                done,
                "style"@,
                namespace_object_v(plan.styles),
                is_svg,
                options,
                vocabulary,
            )
            &&& first_class ==> done.classed && sets_object(
                state,
                done,
                "class"@,
                namespace_object_v(plan.classes),
                is_svg,
                options,
                vocabulary,
            )
            &&& whole_style ==> done.styled && sets_object(
                state,
                done,
                "style"@,
                with_added(attr, plan.styles)->0,
                is_svg,
                options,
                vocabulary,
            )
            &&& whole_class ==> done.classed && sets_object(
                state,
                done,
                "class"@,
                with_added(attr, plan.classes)->0,
                is_svg,
                options,
                vocabulary,
            )
            &&& rest && !whole_style && !whole_class ==> (done.result, done.ctx) == attr_v(
                attr,
                is_svg,
                state.result,
                state.ctx,
                options,
                vocabulary,
            )
            &&& !first_style && !whole_style ==> done.styled == state.styled
            &&& !first_class && !whole_class ==> done.classed == state.classed
        }),
{
    reveal(set_one_v);
    reveal_strlit("class");
    reveal_strlit("style");
    assert("class"@[0] != "style"@[0]);
}

/// No attribute is one of a class, or of a style that is given one by one.
pub open spec fn are_plain(attrs: Seq<JsxAttr>) -> bool {
    forall|i: int|
        0 <= i < attrs.len() ==> ((#[trigger] attrs[i]) matches JsxAttr::Named(attr) ==> attr.key@
            != "class"@ && !starts_with(attr.key@, "class:"@) && !starts_with(
            attr.key@,
            "style:"@,
        ))
}

proof fn plain_attributes_give_nothing(attrs: Seq<JsxAttr>, prefix: Seq<char>)
    requires
        are_plain(attrs),
        prefix == "class:"@ || prefix == "style:"@,
    ensures
        all_given_in_v(attrs, prefix) == (Seq::<NamespacePropertyV>::empty(), Seq::<nat>::empty()),
        crate::ssr_attributes::places_v(attrs, "class"@).len() == 0,
    decreases attrs.len(),
{
    if attrs.len() > 0 {
        let front = attrs.drop_last();
        assert forall|i: int| 0 <= i < front.len() implies ((#[trigger] front[i]) matches
            JsxAttr::Named(attr) ==> attr.key@ != "class"@ && !starts_with(attr.key@, "class:"@)
            && !starts_with(attr.key@, "style:"@)) by {
            assert(front[i] == attrs[i]);
        }
        plain_attributes_give_nothing(front, prefix);
        assert(attrs.last() == attrs[attrs.len() - 1]);
    }
}

proof fn plain_attributes_are_set(
    attrs: Seq<JsxAttr>,
    more: Seq<JsxAttr>,
    n: nat,
    is_svg: bool,
    state: SetV,
    options: TransformOptions,
    vocabulary: Vocabulary,
)
    requires
        are_plain(attrs),
        are_plain(more),
        n <= attrs.len() <= more.len(),
        more.take(attrs.len() as int) == attrs,
    ensures
        set_each_v(attrs, n, plan_v(attrs), is_svg, state, options, vocabulary) == set_each_v(
            more,
            n,
            plan_v(more),
            is_svg,
            state,
            options,
            vocabulary,
        ),
    decreases n,
{
    if n > 0 {
        plain_attributes_are_set(attrs, more, (n - 1) as nat, is_svg, state, options, vocabulary);
        assert(more.take(attrs.len() as int)[n - 1] == more[n - 1]);
        reveal(plan_v);
        reveal(set_one_v);
        plain_attributes_give_nothing(attrs, "class:"@);
        plain_attributes_give_nothing(attrs, "style:"@);
        plain_attributes_give_nothing(more, "class:"@);
        plain_attributes_give_nothing(more, "style:"@);
    }
}

/// Attributes that are neither a class nor a single style are written one behind
/// the other, each as it would be alone; a spread is not written.
pub proof fn plain_attributes_are_written_in_order(
    attrs: Seq<JsxAttr>,
    attr: JsxAttr,
    is_svg: bool,
    result: SsrResultV,
    ctx: SsrContextV,
    options: TransformOptions,
    vocabulary: Vocabulary,
)
    requires
        are_plain(attrs.push(attr)),
    ensures
        ({
            let before = attributes_v(attrs, is_svg, result, ctx, options, vocabulary);
            let done = attributes_v(attrs.push(attr), is_svg, result, ctx, options, vocabulary);
            &&& attr matches JsxAttr::Named(named) ==> done == attr_v(
                named,
                is_svg,
                before.0,
                before.1,
                options,
                vocabulary,
            )
            &&& attr is Spread ==> done == before
        }),
        attributes_v(seq![], is_svg, result, ctx, options, vocabulary) == (result, ctx),
{
    let all = attrs.push(attr);
    assert forall|i: int| 0 <= i < attrs.len() implies ((#[trigger] attrs[i]) matches
        JsxAttr::Named(named) ==> named.key@ != "class"@ && !starts_with(named.key@, "class:"@)
        && !starts_with(named.key@, "style:"@)) by {
        assert(all[i] == attrs[i]);
    }
    assert(all.take(attrs.len() as int) =~= attrs);
    let start = SetV { result, ctx, styled: false, classed: false };
    plain_attributes_are_set(attrs, all, attrs.len(), is_svg, start, options, vocabulary);
    plain_attributes_give_nothing(attrs, "class:"@);
    plain_attributes_give_nothing(attrs, "style:"@);
    plain_attributes_give_nothing(all, "class:"@);
    plain_attributes_give_nothing(all, "style:"@);
    assert(are_plain(seq![]));
    plain_attributes_give_nothing(seq![], "class:"@);
    plain_attributes_give_nothing(seq![], "style:"@);
    reveal(plan_v);
    reveal(set_one_v);
    reveal(attributes_v);
}

} // verus!
