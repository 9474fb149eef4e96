//! Elements that are rendered on a server.

use crate::all_attributes::{any_spread, has_spread};
use crate::ast::{
    expr_values, group_values, no_span, nowhere, prop_value, prop_values, Expr, ExprV, JsxAttr,
    JsxAttribute, JsxChild, JsxElement, JsxValue, Kind, Prop, PropKind, PropV,
};
use crate::attributes::{cloned, cloned_v};
use crate::escape::{escaped_v, spaced_v, wrap_escape_expr, wrap_escape_text_with_space_fallback};
use crate::handlers::undefined_v;
use crate::ir::{helper_ident_expr, helper_v};
use crate::make::{
    array, array_v, bool_v, boolean, call, call0, call2, call4, call_v, empty_object, ident,
    ident_v, object, object_v, str_v, string, thunk, thunk_v, with_span_v,
};
use crate::marker::static_marker;
use crate::options::TransformOptions;
use crate::outside::{same, share};
use crate::peel::{literal_text_from_expr, literal_text_v};
use crate::spread::{
    getter_key_v, getter_return_expr, getter_v, is_getter_name, make_getter_prop_key,
    make_prop_key, prop_key_v,
};
use crate::ssr::{
    component_v, hoist_expression, hoist_v, new_result, SsrContext, SsrContextV, SsrResult, SsrResultV,
};
use crate::ssr_attribute::{written, written_v};
use crate::ssr_attributes::{attributes_v, transform_attributes};
use crate::text::{
    chars_of, escape_html, escape_html_v, has_prefix, is_white, joined, starts_with,
    trim_whitespace, trim_whitespace_v, white,
};
use crate::vocabulary::Vocabulary;
use std::rc::Rc;
use vstd::prelude::*;

verus! {

broadcast use group_values;

// ---------------------------------------------------------------------------
// Children
// ---------------------------------------------------------------------------

pub open spec fn is_all_white(text: Seq<char>) -> bool {
    forall|i: int| 0 <= i < text.len() ==> is_white(#[trigger] text[i])
}

pub open spec fn is_all_spaces(text: Seq<char>) -> bool {
    forall|i: int| 0 <= i < text.len() ==> #[trigger] text[i] == ' '
}

/// A child that is left out: empty braces, or white space that begins with a
/// line break.
pub open spec fn is_left_out(child: JsxChild) -> bool {
    match child {
        JsxChild::Container { span, expr } => expr is None,
        JsxChild::Text(text) => text.source@.len() > 0 && (text.source@[0] == '\n'
            || text.source@[0] == '\r') && is_all_white(text.source@),
        _ => false,
    }
}

/// A child that counts when there are several.
pub open spec fn is_counted(child: JsxChild) -> bool {
    match child {
        JsxChild::Container { span, expr } => expr is Some,
        JsxChild::Text(text) => !is_all_white(text.source@) || (text.source@.len() > 0
            && is_all_spaces(text.source@)),
        _ => true,
    }
}

/// Several children count.
pub open spec fn are_several(children: Seq<JsxChild>) -> bool {
    exists|i: int, j: int|
        0 <= i < j < children.len() && is_counted(#[trigger] children[i]) && is_counted(
            #[trigger] children[j],
        )
}

fn all_white(text: &str) -> (yes: bool)
    ensures
        yes == is_all_white(text@),
{
    let chars = chars_of(text);
    let mut i: usize = 0;
    while i < chars.len()
        invariant
            i <= chars.len(),
            chars@ == text@,
            forall|k: int| 0 <= k < i ==> is_white(#[trigger] text@[k]),
        decreases chars.len() - i,
    {
        if !white(chars[i]) {
            proof {
                assert(!is_white(text@[i as int]));
            }
            return false;
        }
        i = i + 1;
    }
    true
}

fn all_spaces(text: &str) -> (yes: bool)
    ensures
        yes == is_all_spaces(text@),
{
    let chars = chars_of(text);
    let mut i: usize = 0;
    while i < chars.len()
        invariant
            i <= chars.len(),
            chars@ == text@,
            forall|k: int| 0 <= k < i ==> #[trigger] text@[k] == ' ',
        decreases chars.len() - i,
    {
        if chars[i] != ' ' {
            proof {
                assert(text@[i as int] != ' ');
            }
            return false;
        }
        i = i + 1;
    }
    true
}

fn is_filtered_spread_child(child: &JsxChild) -> (yes: bool)
    ensures
        yes == is_left_out(*child),
{
    match child {
        JsxChild::Container { expr, .. } => expr.is_none(),
        JsxChild::Text(text) => {
            let chars = chars_of(text.source.as_str());
            chars.len() > 0 && (chars[0] == '\n' || chars[0] == '\r') && all_white(
                text.source.as_str(),
            )
        },
        _ => false,
    }
}

fn counted(child: &JsxChild) -> (yes: bool)
    ensures
        yes == is_counted(*child),
{
    match child {
        JsxChild::Container { expr, .. } => expr.is_some(),
        JsxChild::Text(text) => {
            let source = text.source.as_str();
            !all_white(source) || (source.unicode_len() > 0 && all_spaces(source))
        },
        _ => true,
    }
}

fn spread_children_are_multi(children: &Vec<JsxChild>) -> (yes: bool)
    ensures
        yes == are_several(children@),
{
    let mut first: Option<usize> = None;
    let mut i: usize = 0;
    while i < children.len()
        invariant
            i <= children.len(),
            match first {
                None => forall|k: int| 0 <= k < i ==> !is_counted(#[trigger] children@[k]),
                Some(at) => at < i && is_counted(children@[at as int]) && forall|k: int|
                    0 <= k < i && k != at ==> !is_counted(#[trigger] children@[k]),
            },
        decreases children.len() - i,
    {
        if counted(&children[i]) {
            if let Some(at) = first {
                proof {
                    assert(is_counted(children@[at as int]));
                    assert(is_counted(children@[i as int]));
                }
                return true;
            }
            first = Some(i);
        }
        i = i + 1;
    }
    false
}

/// Comments stand round what is inserted between other children.
pub open spec fn has_markers(
    children: Seq<JsxChild>,
    ctx: SsrContextV,
    options: TransformOptions,
) -> bool {
    ctx.hydratable && options.hydratable && are_several(children)
}

/// A value between its markers.
pub open spec fn held_v(
    result: SsrResultV,
    ctx: SsrContextV,
    value: ExprV,
    markers: bool,
) -> (SsrResultV, SsrContextV) {
    let held = hoist_v(result, ctx, value, false, false, false);
    (
        if markers {
            held.0.with_static("<!--$-->"@).with_dynamic(held.2).with_static("<!--/-->"@)
        } else {
            held.0.with_dynamic(held.2)
        },
        held.1,
    )
}

fn hold(
    result: &mut SsrResult,
    context: &mut SsrContext,
    value: Rc<Expr>,
    markers: bool,
)
    ensures
        (final(result)@, final(context)@) == held_v(
            old(result)@,
            old(context)@,
            value@,
            markers,
        ),
{
    let held = hoist_expression(context, result, value, false, false, false);
    if markers {
        result.push_static("<!--$-->");
    }
    result.push_dynamic(held);
    if markers {
        result.push_static("<!--/-->");
    }
}

/// An expression among children: escaped unless it must not be, and handed on
/// as a function where it changes.
pub open spec fn child_value_v(
    expr: ExprV,
    marked: bool,
    skip_escape: bool,
    ctx: SsrContextV,
) -> (ExprV, SsrContextV) {
    let plain = if marked {
        with_span_v(expr, no_span())
    } else {
        expr
    };
    let safe = if skip_escape {
        (plain, ctx)
    } else {
        escaped_v(plain, false, false, ctx)
    };
    (
        if !marked && expr.facts.dynamic {
            thunk_v(no_span(), safe.0)
        } else {
            safe.0
        },
        safe.1,
    )
}

fn child_value(expr: &Rc<Expr>, marked: bool, skip_escape: bool, context: &mut SsrContext) -> (value:
    Rc<Expr>)
    ensures
        (value@, final(context)@) == child_value_v(expr@, marked, skip_escape, old(context)@),
{
    let plain = cloned(expr, marked);
    let safe = if skip_escape {
        plain
    } else {
        wrap_escape_expr(&plain, false, context)
    };
    if !marked && expr.facts.dynamic {
        thunk(nowhere(), safe)
    } else {
        safe
    }
}

/// A text in a template.
pub open spec fn text_v(text: Seq<char>, skip_escape: bool) -> Seq<char> {
    if skip_escape {
        text
    } else {
        escape_html_v(text, false)
    }
}

fn push_text(result: &mut SsrResult, text: &str, skip_escape: bool)
    ensures
        final(result)@ == old(result)@.with_static(text_v(text@, skip_escape)),
{
    if skip_escape {
        result.push_static(text);
    } else {
        result.push_static(escape_html(text, false).as_str());
    }
}

// ---------------------------------------------------------------------------
// Content that is given as an attribute
// ---------------------------------------------------------------------------

/// The content that an attribute gives.
#[verifier::opaque]
pub open spec fn content_of_v(
    attr: JsxAttr,
    result: SsrResultV,
    ctx: SsrContextV,
    options: TransformOptions,
) -> Option<(SsrResultV, SsrContextV)> {
    match attr {
        JsxAttr::Spread { .. } => None,
        JsxAttr::Named(attr) => if attr.key@ == "innerHTML"@ {
            match attr.value {
                JsxValue::Container { expr: Some(expr), .. } => Some(
                    match literal_text_v(expr@) {
                        Some(text) => (result.with_static(text), ctx),
                        None => (result.with_dynamic(expr@), ctx),
                    },
                ),
                _ => None,
            }
        } else if attr.key@ == "textContent"@ || attr.key@ == "innerText"@ {
            match attr.value {
                JsxValue::Str { value, .. } => Some(
                    (result.with_static(escape_html_v(value@, false)), ctx),
                ),
                JsxValue::Container { span, expr: Some(expr), .. } => Some(
                    match literal_text_v(expr@) {
                        Some(text) => (result.with_static(escape_html_v(text, false)), ctx),
                        None => {
                            let marked = static_marker(ctx.source, span, options.static_marker@);
                            let safe = spaced_v(cloned_v(*expr, marked), ctx);
                            let held = if !marked && expr.facts.dynamic {
                                hoist_v(
                                    result,
                                    safe.1,
                                    thunk_v(no_span(), safe.0),
                                    false,
                                    false,
                                    false,
                                )
                            } else {
                                hoist_v(result, safe.1, safe.0, false, false, true)
                            };
                            (held.0.with_dynamic(held.2), held.1)
                        },
                    },
                ),
                _ => None,
            }
        } else {
            None
        },
    }
}

/// The content that the first of the attributes from `from` on gives.
pub open spec fn given_content_v(
    attrs: Seq<JsxAttr>,
    from: int,
    result: SsrResultV,
    ctx: SsrContextV,
    options: TransformOptions,
) -> Option<(SsrResultV, SsrContextV)>
    decreases attrs.len() - from,
{
    if from >= attrs.len() {
        None
    } else {
        match content_of_v(attrs[from], result, ctx, options) {
            Some(done) => Some(done),
            None => given_content_v(attrs, from + 1, result, ctx, options),
        }
    }
}

fn push_content_of(
    attr: &JsxAttr,
    result: &mut SsrResult,
    context: &mut SsrContext,
    options: &TransformOptions,
) -> (done: bool)
    ensures
        match content_of_v(*attr, old(result)@, old(context)@, *options) {
            Some(pair) => done && (final(result)@, final(context)@) == pair,
            None => !done && *final(result) == *old(result) && *final(context) == *old(context),
        },
{
    proof {
        reveal(content_of_v);
    }
    let attr = match attr {
        JsxAttr::Spread { .. } => {
            return false;
        },
        JsxAttr::Named(attr) => attr,
    };
    let key = attr.key.as_str();
    if same(key, "innerHTML") {
        match &attr.value {
            JsxValue::Container { expr: Some(expr), .. } => {
                match literal_text_from_expr(expr) {
                    Some(text) => {
                        result.push_static(text.as_str());
                    },
                    None => {
                        result.push_dynamic(share(expr));
                    },
                }
                true
            },
            _ => false,
        }
    } else if same(key, "textContent") || same(key, "innerText") {
        match &attr.value {
            JsxValue::Str { value, .. } => {
                result.push_static(escape_html(value.as_str(), false).as_str());
                true
            },
            JsxValue::Container { span, expr: Some(expr), .. } => {
                match literal_text_from_expr(expr) {
                    Some(text) => {
                        result.push_static(escape_html(text.as_str(), false).as_str());
                    },
                    None => {
                        let marked = context.has_static_marker_comment(
                            *span,
                            options.static_marker,
                        );
                        let safe = wrap_escape_text_with_space_fallback(
                            &cloned(expr, marked),
                            context,
                        );
                        let held = if !marked && expr.facts.dynamic {
                            hoist_expression(
                                context,
                                result,
                                thunk(nowhere(), safe),
                                false,
                                false,
                                false,
                            )
                        } else {
                            hoist_expression(context, result, safe, false, false, true)
                        };
                        result.push_dynamic(held);
                    },
                }
                true
            },
            _ => false,
        }
    } else {
        false
    }
}

fn push_given_content(
    attrs: &Vec<JsxAttr>,
    result: &mut SsrResult,
    context: &mut SsrContext,
    options: &TransformOptions,
) -> (done: bool)
    ensures
        match given_content_v(attrs@, 0, old(result)@, old(context)@, *options) {
            Some(pair) => done && (final(result)@, final(context)@) == pair,
            None => !done && *final(result) == *old(result) && *final(context) == *old(context),
        },
{
    let mut i: usize = 0;
    while i < attrs.len()
        invariant
            i <= attrs.len(),
            *result == *old(result),
            *context == *old(context),
            given_content_v(attrs@, i as int, old(result)@, old(context)@, *options)
                == given_content_v(attrs@, 0, old(result)@, old(context)@, *options),
        decreases attrs.len() - i,
    {
        if push_content_of(&attrs[i], result, context, options) {
            return true;
        }
        i = i + 1;
    }
    false
}

// ---------------------------------------------------------------------------
// Spread attributes
// ---------------------------------------------------------------------------

/// A spread argument: a call of `results` stands for its callee.
pub open spec fn spread_argument_v(expr: Expr) -> ExprV {
    match expr.kind {
        Kind::Call { callee, args, .. } => match callee.kind {
            Kind::Ident { name, .. } => if args@.len() == 0 && name@ == "results"@ {
                callee@
            } else {
                expr@
            },
            _ => expr@,
        },
        _ => expr@,
    }
}

fn normalize_spread_argument_expr(expr: &Rc<Expr>) -> (argument: Rc<Expr>)
    ensures
        argument@ == spread_argument_v(**expr),
{
    if let Kind::Call { callee, args, .. } = &expr.kind {
        if let Kind::Ident { name, .. } = &callee.kind {
            if args.len() == 0 && same(name.as_str(), "results") {
                return share(callee);
            }
        }
    }
    share(expr)
}

/// An attribute that a server has no use for, or that children stand for.
pub open spec fn is_client_only(key: Seq<char>, has_children: bool) -> bool {
    (has_children && key == "children"@) || key == "ref"@ || starts_with(key, "on"@)
        || starts_with(key, "use:"@) || starts_with(key, "prop:"@)
}

/// An attribute as a property.
pub open spec fn init_v(name: Seq<char>, value: ExprV) -> PropV {
    PropV::Named {
        span: no_span(),
        kind: PropKind::Init,
        key: prop_key_v(name),
        value,
        method: false,
        shorthand: false,
        computed: false,
    }
}

/// The property of an attribute; it is read again and again where it changes.
#[verifier::opaque]
pub open spec fn attr_prop_v(
    attr: JsxAttribute,
    has_children: bool,
    is_svg: bool,
    source: Seq<char>,
    options: TransformOptions,
    vocabulary: Vocabulary,
) -> Option<PropV> {
    let name = written_v(attr.key@, is_svg, vocabulary);
    if is_client_only(attr.key@, has_children) {
        None
    } else {
        match attr.value {
            JsxValue::Str { value, .. } => Some(
                init_v(name, str_v(no_span(), escape_html_v(value@, true))),
            ),
            JsxValue::Container { span, expr: Some(expr), .. } => {
                let marked = static_marker(source, span, options.static_marker@);
                let value = cloned_v(*expr, marked);
                if !marked && expr.facts.dynamic {
                    Some(
                        PropV::Named {
                            span: no_span(),
                            kind: PropKind::Getter,
                            key: getter_key_v(name),
                            value: getter_v(value),
                            method: false,
                            shorthand: false,
                            computed: !is_getter_name(name),
                        },
                    )
                } else {
                    Some(init_v(name, value))
                }
            },
            JsxValue::Absent => Some(init_v(name, bool_v(no_span(), true))),
            _ => None,
        }
    }
}

fn init(name: &str, value: Rc<Expr>) -> (prop: Prop)
    ensures
        prop@ == init_v(name@, value@),
{
    let key = make_prop_key(name);
    let prop = Prop::Named {
        span: nowhere(),
        kind: PropKind::Init,
        key,
        value,
        method: false,
        shorthand: false,
        computed: false,
    };
    proof {
        reveal_with_fuel(prop_value, 2);
    }
    prop
}

fn attr_prop(
    attr: &JsxAttribute,
    has_children: bool,
    is_svg: bool,
    context: &SsrContext,
    options: &TransformOptions,
    vocabulary: &Vocabulary,
) -> (prop: Option<Prop>)
    ensures
        match prop {
            Some(prop) => attr_prop_v(
                *attr,
                has_children,
                is_svg,
                context@.source,
                *options,
                *vocabulary,
            ) == Some(prop@),
            None => attr_prop_v(
                *attr,
                has_children,
                is_svg,
                context@.source,
                *options,
                *vocabulary,
            ) is None,
        },
{
    proof {
        reveal(attr_prop_v);
    }
    let key = attr.key.as_str();
    if (has_children && same(key, "children")) || same(key, "ref") || has_prefix(key, "on")
        || has_prefix(key, "use:") || has_prefix(key, "prop:") {
        return None;
    }
    let name = written(key, is_svg, vocabulary);
    match &attr.value {
        JsxValue::Str { value, .. } => {
            let text = escape_html(value.as_str(), true);
            Some(init(name.as_str(), string(nowhere(), text.as_str())))
        },
        JsxValue::Container { span, expr: Some(expr), .. } => {
            let marked = context.has_static_marker_comment(*span, options.static_marker);
            let value = cloned(expr, marked);
            if !marked && expr.facts.dynamic {
                let (key, is_name) = make_getter_prop_key(name.as_str());
                let prop = Prop::Named {
                    span: nowhere(),
                    kind: PropKind::Getter,
                    key,
                    value: getter_return_expr(value),
                    method: false,
                    shorthand: false,
                    computed: !is_name,
                };
                proof {
                    reveal_with_fuel(prop_value, 2);
                }
                Some(prop)
            } else {
                Some(init(name.as_str(), value))
            }
        },
        JsxValue::Absent => Some(init(name.as_str(), boolean(nowhere(), true))),
        _ => None,
    }
}

/// Attributes as objects and spreads: the finished ones, and the properties of
/// the object that is being made.
pub ghost struct ChunksV {
    pub chunks: Seq<ExprV>,
    pub running: Seq<PropV>,
}

impl ChunksV {
    pub open spec fn flushed(self) -> ChunksV {
        if self.running.len() == 0 {
            self
        } else {
            ChunksV {
                chunks: self.chunks.push(object_v(no_span(), self.running)),
                running: seq![],
            }
        }
    }
}

/// The attributes, one after the other.
pub open spec fn chunks_v(
    attrs: Seq<JsxAttr>,
    has_children: bool,
    is_svg: bool,
    source: Seq<char>,
    options: TransformOptions,
    vocabulary: Vocabulary,
) -> ChunksV
    decreases attrs.len(),
{
    if attrs.len() == 0 {
        ChunksV { chunks: seq![], running: seq![] }
    } else {
        let before = chunks_v(
            attrs.drop_last(),
            has_children,
            is_svg,
            source,
            options,
            vocabulary,
        );
        match attrs.last() {
            JsxAttr::Spread { span, argument } => {
                let flushed = before.flushed();
                ChunksV {
                    chunks: flushed.chunks.push(spread_argument_v(*argument)),
                    running: flushed.running,
                }
            },
            JsxAttr::Named(attr) => match attr_prop_v(
                attr,
                has_children,
                is_svg,
                source,
                options,
                vocabulary,
            ) {
                Some(prop) => ChunksV { running: before.running.push(prop), ..before },
                None => before,
            },
        }
    }
}

/// The properties of an element with spread attributes.
#[verifier::opaque]
pub open spec fn props_v(
    attrs: Seq<JsxAttr>,
    has_children: bool,
    is_svg: bool,
    ctx: SsrContextV,
    options: TransformOptions,
    vocabulary: Vocabulary,
) -> (ExprV, SsrContextV) {
    let all = chunks_v(
        attrs,
        has_children,
        is_svg,
        ctx.source,
        options,
        vocabulary,
    ).flushed().chunks;
    if all.len() == 0 {
        (object_v(no_span(), seq![]), ctx)
    } else if all.len() == 1 {
        (all[0], ctx)
    } else {
        (
            call_v(no_span(), helper_v(no_span(), "mergeProps"@), all),
            ctx.with_helper("mergeProps"@),
        )
    }
}

fn spread_props(
    attrs: &Vec<JsxAttr>,
    has_children: bool,
    is_svg: bool,
    context: &mut SsrContext,
    options: &TransformOptions,
    vocabulary: &Vocabulary,
) -> (props: Rc<Expr>)
    ensures
        (props@, final(context)@) == props_v(
            attrs@,
            has_children,
            is_svg,
            old(context)@,
            *options,
            *vocabulary,
        ),
{
    proof {
        reveal(props_v);
    }
    let ghost source = context@.source;
    let mut chunks: Vec<Rc<Expr>> = Vec::new();
    let mut running: Vec<Prop> = Vec::new();
    let mut i: usize = 0;
    proof {
        assert(expr_values(chunks@) =~= seq![]);
        assert(prop_values(running@) =~= seq![]);
    }
    while i < attrs.len()
        invariant
            i <= attrs.len(),
            source == context@.source,
            *context == *old(context),
            (ChunksV { chunks: expr_values(chunks@), running: prop_values(running@) }) == chunks_v(
                attrs@.take(i as int),
                has_children,
                is_svg,
                source,
                *options,
                *vocabulary,
            ),
        decreases attrs.len() - i,
    {
        proof {
            assert(attrs@.take(i + 1).drop_last() =~= attrs@.take(i as int));
            assert(attrs@.take(i + 1).last() == attrs@[i as int]);
        }
        match &attrs[i] {
            JsxAttr::Spread { argument, .. } => {
                if running.len() > 0 {
                    chunks.push(object(nowhere(), running));
                    running = Vec::new();
                    proof {
                        assert(prop_values(running@) =~= seq![]);
                    }
                }
                chunks.push(normalize_spread_argument_expr(argument));
            },
            JsxAttr::Named(attr) => {
                if let Some(prop) = attr_prop(
                    attr,
                    has_children,
                    is_svg,
                    context,
                    options,
                    vocabulary,
                ) {
                    running.push(prop);
                }
            },
        }
        i = i + 1;
    }
    proof {
        assert(attrs@.take(attrs@.len() as int) =~= attrs@);
    }
    if running.len() > 0 {
        chunks.push(object(nowhere(), running));
    }
    if chunks.len() == 0 {
        empty_object(nowhere())
    } else if chunks.len() == 1 {
        share(&chunks[0])
    } else {
        context.register_helper("mergeProps");
        call(nowhere(), helper_ident_expr(nowhere(), "mergeProps"), chunks)
    }
}

/// `ssrElement("tag", props, children, key)`.
#[verifier::opaque]
pub open spec fn element_call_v(
    tag: Seq<char>,
    props: ExprV,
    nodes: Seq<ExprV>,
    hydrated: bool,
    top_level: bool,
) -> ExprV {
    let children = if nodes.len() == 0 {
        undefined_v()
    } else if nodes.len() == 1 {
        nodes[0]
    } else {
        array_v(no_span(), nodes)
    };
    call_v(
        no_span(),
        helper_v(no_span(), "ssrElement"@),
        seq![
            str_v(no_span(), tag),
            props,
            if nodes.len() > 0 && hydrated {
                thunk_v(no_span(), children)
            } else {
                children
            },
            bool_v(no_span(), top_level && hydrated),
        ],
    )
}

fn element_call(
    tag: &str,
    props: Rc<Expr>,
    nodes: Vec<Rc<Expr>>,
    hydrated: bool,
    top_level: bool,
) -> (expr: Rc<Expr>)
    ensures
        expr@ == element_call_v(tag@, props@, expr_values(nodes@), hydrated, top_level),
{
    proof {
        reveal(element_call_v);
    }
    let n: usize = nodes.len();
    let children = if n == 0 {
        ident(nowhere(), "undefined")
    } else if n == 1 {
        share(&nodes[0])
    } else {
        array(nowhere(), nodes)
    };
    let held = if n > 0 && hydrated {
        thunk(nowhere(), children)
    } else {
        children
    };
    call4(
        nowhere(),
        helper_ident_expr(nowhere(), "ssrElement"),
        string(nowhere(), tag),
        props,
        held,
        boolean(nowhere(), top_level && hydrated),
    )
}

// ---------------------------------------------------------------------------
// Elements
// ---------------------------------------------------------------------------

/// A node between its markers.
pub open spec fn marked_node_v(nodes: Seq<ExprV>, node: ExprV, markers: bool) -> Seq<ExprV> {
    if markers {
        nodes.push(str_v(no_span(), "<!--$-->"@)).push(node).push(
            str_v(no_span(), "<!--/-->"@),
        )
    } else {
        nodes.push(node)
    }
}

fn push_node(nodes: &mut Vec<Rc<Expr>>, node: Rc<Expr>, markers: bool)
    ensures
        expr_values(final(nodes)@) == marked_node_v(expr_values(old(nodes)@), node@, markers),
{
    if markers {
        nodes.push(string(nowhere(), "<!--$-->"));
        nodes.push(node);
        nodes.push(string(nowhere(), "<!--/-->"));
    } else {
        nodes.push(node);
    }
}

/// A transformed child as a node.
pub open spec fn result_node_v(
    nodes: Seq<ExprV>,
    child: SsrResultV,
    skip_escape: bool,
    markers: bool,
    ctx: SsrContextV,
) -> (Seq<ExprV>, SsrContextV) {
    let special = child.exprs.len() > 0 && !child.spread_element;
    let (ctx1, plain) = ctx.put_out(child);
    let (node, ctx2) = if special && !skip_escape {
        escaped_v(plain, false, false, ctx1)
    } else {
        (plain, ctx1)
    };
    (marked_node_v(nodes, node, markers && special), ctx2)
}

fn push_result_node(
    nodes: &mut Vec<Rc<Expr>>,
    child: SsrResult,
    skip_escape: bool,
    markers: bool,
    context: &mut SsrContext,
)
    ensures
        (expr_values(final(nodes)@), final(context)@) == result_node_v(
            expr_values(old(nodes)@),
            child@,
            skip_escape,
            markers,
            old(context)@,
        ),
{
    let special = child.exprs.len() > 0 && !child.spread_element;
    let plain = context.put_out(child);
    let node = if special && !skip_escape {
        wrap_escape_expr(&plain, false, context)
    } else {
        plain
    };
    push_node(nodes, node, markers && special);
}

/// A transformed child in the template of its parent.
pub open spec fn result_child_v(
    result: SsrResultV,
    child: SsrResultV,
    skip_escape: bool,
    markers: bool,
    ctx: SsrContextV,
) -> (SsrResultV, SsrContextV) {
    if child.exprs.len() == 0 {
        (result.merged(child), ctx)
    } else {
        let (ctx1, plain) = ctx.put_out(child);
        let (value, ctx2) = if !skip_escape && !child.spread_element {
            escaped_v(plain, false, false, ctx1)
        } else {
            (plain, ctx1)
        };
        held_v(result, ctx2, value, markers && !child.spread_element)
    }
}

fn push_result_child(
    result: &mut SsrResult,
    child: SsrResult,
    skip_escape: bool,
    markers: bool,
    context: &mut SsrContext,
)
    ensures
        (final(result)@, final(context)@) == result_child_v(
            old(result)@,
            child@,
            skip_escape,
            markers,
            old(context)@,
        ),
{
    if child.exprs.len() == 0 {
        result.merge(child);
    } else {
        let spread = child.spread_element;
        let plain = context.put_out(child);
        let value = if !skip_escape && !spread {
            wrap_escape_expr(&plain, false, context)
        } else {
            plain
        };
        hold(result, context, value, markers && !spread);
    }
}

/// An element of the platform.
pub open spec fn element_v(
    element: JsxElement,
    top_level: bool,
    ctx: SsrContextV,
    options: TransformOptions,
    vocabulary: Vocabulary,
) -> (SsrResultV, SsrContextV)
    decreases element, 1nat,
{
    if has_spread(element.attrs@) {
        spread_element_v(element, top_level, ctx, options, vocabulary)
    } else {
        let tag = element.tag@;
        let begun = new_result(element.span).with_static("<"@ + tag);
        let (keyed, ctx1) = if top_level && ctx.hydratable && options.hydratable {
            let held = hoist_v(
                begun,
                ctx.with_helper("ssrHydrationKey"@),
                call_v(no_span(), helper_v(no_span(), "ssrHydrationKey"@), seq![]),
                false,
                false,
                true,
            );
            (held.0.with_dynamic(held.2), held.1)
        } else {
            (begun, ctx)
        };
        let set = attributes_v(
            element.attrs@,
            vocabulary.is_svg(tag),
            keyed,
            ctx1,
            options,
            vocabulary,
        );
        let opened = set.0.with_static(">"@);
        if vocabulary.is_void(tag) {
            (opened, set.1)
        } else {
            let filled = match given_content_v(element.attrs@, 0, opened, set.1, options) {
                Some(pair) => pair,
                None => children_v(
                    element.children@,
                    element.children@.len(),
                    opened,
                    tag == "script"@ || tag == "style"@,
                    set.1,
                    options,
                    vocabulary,
                ),
            };
            (filled.0.with_static("</"@ + tag + ">"@), filled.1)
        }
    }
}

/// An element with spread attributes.
pub open spec fn spread_element_v(
    element: JsxElement,
    top_level: bool,
    ctx: SsrContextV,
    options: TransformOptions,
    vocabulary: Vocabulary,
) -> (SsrResultV, SsrContextV)
    decreases element, 0nat,
{
    let tag = element.tag@;
    let props = props_v(
        element.attrs@,
        element.children@.len() > 0,
        vocabulary.is_svg(tag),
        ctx.with_helper("ssrElement"@).with_helper("escape"@),
        options,
        vocabulary,
    );
    let nodes = nodes_v(
        element.children@,
        element.children@.len(),
        tag == "script"@ || tag == "style"@,
        props.1,
        options,
        vocabulary,
    );
    (
        SsrResultV {
            spread_element: true,
            exprs: seq![
                element_call_v(
                    tag,
                    props.0,
                    nodes.0,
                    ctx.hydratable && options.hydratable,
                    top_level,
                ),
            ],
            ..new_result(element.span)
        },
        nodes.1,
    )
}

/// The first `n` children, in the template of their parent.
pub open spec fn children_v(
    children: Seq<JsxChild>,
    n: nat,
    result: SsrResultV,
    skip_escape: bool,
    ctx: SsrContextV,
    options: TransformOptions,
    vocabulary: Vocabulary,
) -> (SsrResultV, SsrContextV)
    decreases children, n,
{
    if n == 0 || n > children.len() {
        (result, ctx)
    } else {
        let (result, ctx) = children_v(
            children,
            (n - 1) as nat,
            result,
            skip_escape,
            ctx,
            options,
            vocabulary,
        );
        let markers = has_markers(children, ctx, options);
        let marker = options.static_marker@;
        let child = children[n - 1];
        if is_left_out(child) {
            (result, ctx)
        } else {
            match child {
                JsxChild::Text(text) => {
                    let content = trim_whitespace_v(text.source@);
                    if content.len() == 0 {
                        (result, ctx)
                    } else {
                        (result.with_static(text_v(content, skip_escape)), ctx)
                    }
                },
                JsxChild::Element(element) => {
                    let (child, ctx) = if element.is_component {
                        component_v(*element, ctx)
                    } else {
                        element_v(*element, false, ctx, options, vocabulary)
                    };
                    result_child_v(result, child, skip_escape, markers, ctx)
                },
                JsxChild::Container { span, expr } => match expr {
                    None => (result, ctx),
                    Some(expr) => match literal_text_v(expr@) {
                        Some(text) => (result.with_static(text_v(text, skip_escape)), ctx),
                        None => {
                            let value = child_value_v(
                                expr@,
                                static_marker(ctx.source, span, marker),
                                skip_escape,
                                ctx,
                            );
                            held_v(result, value.1, value.0, markers)
                        },
                    },
                },
                JsxChild::Spread { span, expr } => {
                    let value = child_value_v(
                        expr@,
                        static_marker(ctx.source, span, marker),
                        skip_escape,
                        ctx,
                    );
                    held_v(result, value.1, value.0, markers)
                },
                JsxChild::Fragment(fragment) => children_v(
                    fragment.children@,
                    fragment.children@.len(),
                    result,
                    skip_escape,
                    ctx,
                    options,
                    vocabulary,
                ),
            }
        }
    }
}

/// The first `n` children of an element with spread attributes.
pub open spec fn nodes_v(
    children: Seq<JsxChild>,
    n: nat,
    skip_escape: bool,
    ctx: SsrContextV,
    options: TransformOptions,
    vocabulary: Vocabulary,
) -> (Seq<ExprV>, SsrContextV)
    decreases children, n,
{
    if n == 0 || n > children.len() {
        (seq![], ctx)
    } else {
        let (nodes, ctx) = nodes_v(
            children,
            (n - 1) as nat,
            skip_escape,
            ctx,
            options,
            vocabulary,
        );
        let markers = has_markers(children, ctx, options);
        let marker = options.static_marker@;
        let child = children[n - 1];
        if is_left_out(child) {
            (nodes, ctx)
        } else {
            match child {
                JsxChild::Text(text) => {
                    let content = trim_whitespace_v(text.source@);
                    if content.len() == 0 {
                        (nodes, ctx)
                    } else {
                        (nodes.push(str_v(no_span(), content)), ctx)
                    }
                },
                JsxChild::Element(element) => {
                    let (child, ctx) = if element.is_component {
                        component_v(*element, ctx)
                    } else {
                        element_v(*element, false, ctx, options, vocabulary)
                    };
                    result_node_v(nodes, child, skip_escape, markers, ctx)
                },
                JsxChild::Container { span, expr } => match expr {
                    None => (nodes, ctx),
                    Some(expr) => {
                        let value = child_value_v(
                            expr@,
                            static_marker(ctx.source, span, marker),
                            skip_escape,
                            ctx,
                        );
                        (marked_node_v(nodes, value.0, markers), value.1)
                    },
                },
                JsxChild::Spread { span, expr } => {
                    let value = child_value_v(
                        expr@,
                        static_marker(ctx.source, span, marker),
                        skip_escape,
                        ctx,
                    );
                    (marked_node_v(nodes, value.0, markers), value.1)
                },
                JsxChild::Fragment(fragment) => {
                    let (child, ctx) = children_v(
                        fragment.children@,
                        fragment.children@.len(),
                        new_result(fragment.span),
                        skip_escape,
                        ctx,
                        options,
                        vocabulary,
                    );
                    result_node_v(nodes, child, skip_escape, markers, ctx)
                },
            }
        }
    }
}

/// Transforms an element of the platform.
pub fn transform_element(
    element: &JsxElement,
    top_level: bool,
    context: &mut SsrContext,
    options: &TransformOptions,
    vocabulary: &Vocabulary,
) -> (result: SsrResult)
    ensures
        (result@, final(context)@) == element_v(
            *element,
            top_level,
            old(context)@,
            *options,
            *vocabulary,
        ),
    decreases element, 1nat,
{
    if any_spread(&element.attrs) {
        return transform_element_with_spread(element, top_level, context, options, vocabulary);
    }
    let tag = element.tag.as_str();
    let mut result = SsrResult::new(element.span);
    result.push_static(joined("<", tag).as_str());
    if top_level && context.hydratable && options.hydratable {
        context.register_helper("ssrHydrationKey");
        let key = call0(nowhere(), helper_ident_expr(nowhere(), "ssrHydrationKey"));
        let held = hoist_expression(context, &mut result, key, false, false, true);
        result.push_dynamic(held);
    }
    transform_attributes(
        &element.attrs,
        vocabulary.svg(tag),
        &mut result,
        context,
        options,
        vocabulary,
    );
    result.push_static(">");
    if !vocabulary.void(tag) {
        if !push_given_content(&element.attrs, &mut result, context, options) {
            process_jsx_children(
                &element.children,
                &mut result,
                same(tag, "script") || same(tag, "style"),
                context,
                options,
                vocabulary,
            );
        }
        result.push_static(joined(joined("</", tag).as_str(), ">").as_str());
    }
    result
}

/// Transforms an element with spread attributes.
fn transform_element_with_spread(
    element: &JsxElement,
    top_level: bool,
    context: &mut SsrContext,
    options: &TransformOptions,
    vocabulary: &Vocabulary,
) -> (result: SsrResult)
    ensures
        (result@, final(context)@) == spread_element_v(
            *element,
            top_level,
            old(context)@,
            *options,
            *vocabulary,
        ),
    decreases element, 0nat,
{
    let tag = element.tag.as_str();
    let hydrated = context.hydratable && options.hydratable;
    context.register_helper("ssrElement");
    context.register_helper("escape");
    let props = spread_props(
        &element.attrs,
        element.children.len() > 0,
        vocabulary.svg(tag),
        context,
        options,
        vocabulary,
    );
    let nodes = spread_nodes(
        &element.children,
        same(tag, "script") || same(tag, "style"),
        context,
        options,
        vocabulary,
    );
    let call = element_call(tag, props, nodes, hydrated, top_level);
    let mut result = SsrResult::new(element.span);
    result.spread_element = true;
    result.exprs.push(call);
    proof {
        assert(expr_values(result.exprs@) =~= seq![call@]);
    }
    result
}

/// The children of an element, in its template.
pub fn process_jsx_children(
    children: &Vec<JsxChild>,
    result: &mut SsrResult,
    skip_escape: bool,
    context: &mut SsrContext,
    options: &TransformOptions,
    vocabulary: &Vocabulary,
)
    ensures
        (final(result)@, final(context)@) == children_v(
            children@,
            children@.len(),
            old(result)@,
            skip_escape,
            old(context)@,
            *options,
            *vocabulary,
        ),
    decreases children, children.len(),
{
    let several = spread_children_are_multi(children);
    let mut i: usize = 0;
    while i < children.len()
        invariant
            i <= children.len(),
            several == are_several(children@),
            (result@, context@) == children_v(
                children@,
                i as nat,
                old(result)@,
                skip_escape,
                old(context)@,
                *options,
                *vocabulary,
            ),
        decreases children.len() - i,
    {
        let markers = context.hydratable && options.hydratable && several;
        if !is_filtered_spread_child(&children[i]) {
            match &children[i] {
                JsxChild::Text(text) => {
                    let content = trim_whitespace(text.source.as_str());
                    if content.as_str().unicode_len() > 0 {
                        push_text(result, content.as_str(), skip_escape);
                    }
                },
                JsxChild::Element(element) => {
                    let child = if element.is_component {
                        context.component(element)
                    } else {
                        transform_element(element, false, context, options, vocabulary)
                    };
                    push_result_child(result, child, skip_escape, markers, context);
                },
                JsxChild::Container { span, expr } => {
                    if let Some(expr) = expr {
                        if let Some(text) = literal_text_from_expr(expr) {
                            push_text(result, text.as_str(), skip_escape);
                        } else {
                            let marked = context.has_static_marker_comment(
                                *span,
                                options.static_marker,
                            );
                            let value = child_value(expr, marked, skip_escape, context);
                            hold(result, context, value, markers);
                        }
                    }
                },
                JsxChild::Spread { span, expr } => {
                    let marked = context.has_static_marker_comment(*span, options.static_marker);
                    let value = child_value(expr, marked, skip_escape, context);
                    hold(result, context, value, markers);
                },
                JsxChild::Fragment(fragment) => {
                    process_jsx_children(
                        &fragment.children,
                        result,
                        skip_escape,
                        context,
                        options,
                        vocabulary,
                    );
                },
            }
        }
        i = i + 1;
    }
}

/// The children of an element with spread attributes.
fn spread_nodes(
    children: &Vec<JsxChild>,
    skip_escape: bool,
    context: &mut SsrContext,
    options: &TransformOptions,
    vocabulary: &Vocabulary,
) -> (nodes: Vec<Rc<Expr>>)
    ensures
        (expr_values(nodes@), final(context)@) == nodes_v(
            children@,
            children@.len(),
            skip_escape,
            old(context)@,
            *options,
            *vocabulary,
        ),
    decreases children, children.len(),
{
    let several = spread_children_are_multi(children);
    let mut nodes: Vec<Rc<Expr>> = Vec::new();
    let mut i: usize = 0;
    proof {
        assert(expr_values(nodes@) =~= seq![]);
    }
    while i < children.len()
        invariant
            i <= children.len(),
            several == are_several(children@),
            (expr_values(nodes@), context@) == nodes_v(
                children@,
                i as nat,
                skip_escape,
                old(context)@,
                *options,
                *vocabulary,
            ),
        decreases children.len() - i,
    {
        let markers = context.hydratable && options.hydratable && several;
        if !is_filtered_spread_child(&children[i]) {
            match &children[i] {
                JsxChild::Text(text) => {
                    let content = trim_whitespace(text.source.as_str());
                    if content.as_str().unicode_len() > 0 {
                        nodes.push(string(nowhere(), content.as_str()));
                    }
                },
                JsxChild::Element(element) => {
                    let child = if element.is_component {
                        context.component(element)
                    } else {
                        transform_element(element, false, context, options, vocabulary)
                    };
                    push_result_node(&mut nodes, child, skip_escape, markers, context);
                },
                JsxChild::Container { span, expr } => {
                    if let Some(expr) = expr {
                        let marked = context.has_static_marker_comment(
                            *span,
                            options.static_marker,
                        );
                        let value = child_value(expr, marked, skip_escape, context);
                        push_node(&mut nodes, value, markers);
                    }
                },
                JsxChild::Spread { span, expr } => {
                    let marked = context.has_static_marker_comment(*span, options.static_marker);
                    let value = child_value(expr, marked, skip_escape, context);
                    push_node(&mut nodes, value, markers);
                },
                JsxChild::Fragment(fragment) => {
                    let mut child = SsrResult::new(fragment.span);
                    process_jsx_children(
                        &fragment.children,
                        &mut child,
                        skip_escape,
                        context,
                        options,
                        vocabulary,
                    );
                    push_result_node(&mut nodes, child, skip_escape, markers, context);
                },
            }
        }
        i = i + 1;
    }
    nodes
}

// ---------------------------------------------------------------------------
// Children of components
// ---------------------------------------------------------------------------

/// A child of a component: an element is rendered, a component is made without
/// properties, and anything else is left to the component.
pub open spec fn component_child_v(
    child: JsxChild,
    ctx: SsrContextV,
    options: TransformOptions,
    vocabulary: Vocabulary,
) -> (Option<SsrResultV>, SsrContextV) {
    match child {
        JsxChild::Element(element) => if element.is_component {
            let made = call_v(
                no_span(),
                helper_v(no_span(), "createComponent"@),
                seq![ident_v(no_span(), element.tag@), object_v(no_span(), seq![])],
            );
            (
                Some(SsrResultV { exprs: seq![made], ..new_result(element.span) }),
                ctx.with_helper("createComponent"@).with_helper("escape"@),
            )
        } else {
            let done = element_v(*element, false, ctx, options, vocabulary);
            (Some(done.0), done.1)
        },
        _ => (None, ctx),
    }
}

/// Transforms a child of a component.
pub fn transform_component_child(
    child: &JsxChild,
    context: &mut SsrContext,
    options: &TransformOptions,
    vocabulary: &Vocabulary,
) -> (result: Option<SsrResult>)
    ensures
        (
            match result {
                Some(result) => Some(result@),
                None => None,
            },
            final(context)@,
        ) == component_child_v(*child, old(context)@, *options, *vocabulary),
{
    match child {
        JsxChild::Element(element) => if element.is_component {
            context.register_helper("createComponent");
            context.register_helper("escape");
            let made = call2(
                nowhere(),
                helper_ident_expr(nowhere(), "createComponent"),
                ident(nowhere(), element.tag.as_str()),
                empty_object(nowhere()),
            );
            let mut result = SsrResult::new(element.span);
            result.exprs.push(made);
            proof {
                assert(expr_values(result.exprs@) =~= seq![made@]);
            }
            Some(result)
        } else {
            Some(transform_element(element, false, context, options, vocabulary))
        },
        _ => None,
    }
}

} // verus!
