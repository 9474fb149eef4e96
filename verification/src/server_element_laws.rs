//! What an element that is rendered on the server is put together from.

use crate::ast::{no_span, Expr, ExprV, JsxAttr, JsxAttribute, JsxChild, JsxValue, KindV};
use crate::escape::escaped_v;
use crate::escape_laws::{
    an_escaped_expression_is_safe, bared, escaping_is_undone, is_safe,
};
use crate::marker::static_marker;
use crate::options::TransformOptions;
use crate::peel::literal_text_v;
use crate::server_laws::{extends, shown_name};
use crate::shape::{
    arg, calls_helper, gets_value, holds_value, is_flag, is_name, is_text, is_thunk,
};
use crate::ssr::{PartV, RequestV, SsrContextV, SsrResultV};
use crate::ssr_attributes::{
    all_given_in_v, merged_object_v, namespace_object_v, namespace_value_v, object_props_v, plan_v,
    NamespacePropertyV,
};
use crate::ssr_element::{
    attr_prop_v, child_value_v, children_v, component_child_v, element_call_v, has_markers, held_v,
    is_client_only, is_left_out, marked_node_v, result_child_v, text_v,
};
use crate::text::{escape_html_v, starts_with, trim_whitespace_v};
use crate::text_laws::{an_escaped_text_reads_back, breaks_out, unescaped};
use crate::vocabulary::Vocabulary;
use vstd::prelude::*;

verus! {

// ---------------------------------------------------------------------------
// Children
// ---------------------------------------------------------------------------

/// A text reads as another in HTML, and begins no tag.
pub open spec fn is_shown_as(shown: Seq<char>, text: Seq<char>, raw: bool) -> bool {
    if raw {
        shown == text
    } else {
        unescaped(shown) == text && forall|i: int|
            0 <= i < shown.len() ==> #[trigger] shown[i] != '<'
    }
}

/// A text of an element is escaped, except in a script or a style sheet.
pub proof fn a_text_is_shown(text: Seq<char>, raw: bool)
    ensures
        is_shown_as(text_v(text, raw), text, raw),
{
    an_escaped_text_reads_back(text, false);
    let shown = text_v(text, raw);
    if !raw {
        assert forall|i: int| 0 <= i < shown.len() implies #[trigger] shown[i] != '<' by {
            assert(!breaks_out(shown[i], false));
        }
    }
}

/// An expression that is marked as static has no place of its own.
pub open spec fn placeless(expr: ExprV, marked: bool) -> ExprV {
    if marked {
        ExprV { span: no_span(), ..expr }
    } else {
        expr
    }
}

/// A value of a child is escaped, unless it is raw, and computed again each time
/// where it changes.
pub proof fn a_child_value_is_escaped(expr: ExprV, marked: bool, raw: bool, ctx: SsrContextV)
    ensures
        ({
            let out = child_value_v(expr, marked, raw, ctx).0;
            let plain = placeless(expr, marked);
            exists|shown: ExprV|
                {
                    &&& #[trigger] is_child_value(shown, plain, raw)
                    &&& !marked && expr.facts.dynamic ==> is_thunk(out, shown)
                    &&& marked || !expr.facts.dynamic ==> out == shown
                }
        }),
{
    let plain = placeless(expr, marked);
    escaping_is_undone(plain, false, ctx);
    an_escaped_expression_is_safe(plain, false, false, ctx);
    let shown = if raw {
        plain
    } else {
        escaped_v(plain, false, false, ctx).0
    };
    assert(is_child_value(shown, plain, raw));
}

/// An expression is a value, escaped unless it is raw.
pub open spec fn is_child_value(shown: ExprV, value: ExprV, raw: bool) -> bool {
    if raw {
        shown == value
    } else {
        is_safe(shown, false) && bared(shown, false) == value
    }
}

/// The marker before what is inserted, and the one behind it.
pub open spec fn markers_round(inner: PartV) -> Seq<PartV> {
    seq![PartV::Static("<!--$-->"@), inner, PartV::Static("<!--/-->"@)]
}

/// A value is held by a request of its own and stands in the hole of that
/// request, between markers where these are asked for.
pub proof fn a_value_is_held(result: SsrResultV, ctx: SsrContextV, value: ExprV, markers: bool)
    ensures
        ({
            let (done, after) = held_v(result, ctx, value, markers);
            let slot = ctx.requests.len();
            let hole = done.parts[result.parts.len() + if markers {
                2int
            } else {
                1
            }];
            &&& hole matches PartV::Dynamic(expr) && expr.kind == KindV::Hole(slot as usize)
            &&& extends(
                result,
                done,
                seq![PartV::Hoisted(slot as usize)] + if markers {
                    markers_round(hole)
                } else {
                    seq![hole]
                },
            )
            &&& after.requests == ctx.requests.push(
                RequestV::Hoist { expr: value, grouped: false, post: false, plain: false },
            )
        }),
{
    let (done, after) = held_v(result, ctx, value, markers);
    let slot = ctx.requests.len();
    let hole = done.parts[result.parts.len() + if markers {
        2int
    } else {
        1
    }];
    if markers {
        assert(done.parts =~= result.parts + (seq![PartV::Hoisted(slot as usize)] + markers_round(
            hole,
        )));
    } else {
        assert(done.parts =~= result.parts + (seq![PartV::Hoisted(slot as usize)] + seq![hole]));
    }
}

/// A node of an element with a spread stands between the same markers.
pub proof fn a_node_is_marked(nodes: Seq<ExprV>, node: ExprV, markers: bool)
    ensures
        ({
            let done = marked_node_v(nodes, node, markers);
            let n = nodes.len() as int;
            &&& done.take(n) == nodes
            &&& markers ==> done.len() == n + 3 && is_text(done[n], "<!--$-->"@) && done[n + 1]
                == node && is_text(done[n + 2], "<!--/-->"@)
            &&& !markers ==> done.len() == n + 1 && done[n] == node
        }),
{
    assert(marked_node_v(nodes, node, markers).take(nodes.len() as int) =~= nodes);
}

/// A child that is a text, but not one that only breaks the line, is shown with
/// its white space trimmed.
pub proof fn a_text_child_is_shown(
    children: Seq<JsxChild>,
    n: nat,
    result: SsrResultV,
    raw: bool,
    ctx: SsrContextV,
    options: TransformOptions,
    vocabulary: Vocabulary,
)
    requires
        0 < n <= children.len(),
        children[n - 1] is Text,
        !is_left_out(children[n - 1]),
    ensures
        ({
            let before = children_v(
                children,
                (n - 1) as nat,
                result,
                raw,
                ctx,
                options,
                vocabulary,
            );
            let done = children_v(children, n, result, raw, ctx, options, vocabulary);
            let text = trim_whitespace_v(children[n - 1]->Text_0.source@);
            &&& done.1 == before.1
            &&& text.len() == 0 ==> done.0 == before.0
            &&& text.len() > 0 ==> done.0.parts.len() == before.0.parts.len() + 1 && extends(
                before.0,
                done.0,
                seq![done.0.parts.last()],
            ) && (done.0.parts.last() matches PartV::Static(shown) && is_shown_as(shown, text, raw))
        }),
{
    let before = children_v(children, (n - 1) as nat, result, raw, ctx, options, vocabulary);
    let done = children_v(children, n, result, raw, ctx, options, vocabulary);
    let text = trim_whitespace_v(children[n - 1]->Text_0.source@);
    a_text_is_shown(text, raw);
    if text.len() > 0 {
        assert(done.0.parts =~= before.0.parts + seq![done.0.parts.last()]);
    }
}

/// A child that is an expression is shown: as text where it is known, else held
/// by a request, escaped, and between markers where the element has several
/// children and is hydrated.
pub proof fn an_expression_child_is_shown(
    children: Seq<JsxChild>,
    n: nat,
    result: SsrResultV,
    raw: bool,
    ctx: SsrContextV,
    options: TransformOptions,
    vocabulary: Vocabulary,
)
    requires
        0 < n <= children.len(),
        children[n - 1] is Container,
        children[n - 1]->Container_expr is Some,
    ensures
        ({
            let before = children_v(
                children,
                (n - 1) as nat,
                result,
                raw,
                ctx,
                options,
                vocabulary,
            );
            let done = children_v(children, n, result, raw, ctx, options, vocabulary);
            let expr = children[n - 1]->Container_expr->0;
            let span = children[n - 1]->Container_span;
            match literal_text_v(expr@) {
                Some(text) => done.1 == before.1 && done.0.parts.len() == before.0.parts.len() + 1
                    && (done.0.parts.last() matches PartV::Static(shown) && is_shown_as(
                    shown,
                    text,
                    raw,
                )),
                None => {
                    let value = child_value_v(
                        expr@,
                        static_marker(before.1.source, span, options.static_marker@),
                        raw,
                        before.1,
                    );
                    done == held_v(
                        before.0,
                        value.1,
                        value.0,
                        has_markers(children, before.1, options),
                    )
                },
            }
        }),
{
    let before = children_v(children, (n - 1) as nat, result, raw, ctx, options, vocabulary);
    let expr = children[n - 1]->Container_expr->0;
    if let Some(text) = literal_text_v(expr@) {
        a_text_is_shown(text, raw);
    }
}

/// An expression is the value of a child, escaped unless it is raw or an element.
pub open spec fn is_value_of(shown: ExprV, child: SsrResultV, raw: bool) -> bool {
    is_child_value(shown, child.exprs[0], raw || child.spread_element)
}

/// A value is held in a result.
pub open spec fn is_held(
    done: (SsrResultV, SsrContextV),
    result: SsrResultV,
    value: ExprV,
    markers: bool,
) -> bool {
    exists|ctx: SsrContextV| done == #[trigger] held_v(result, ctx, value, markers)
}

/// An element in an element stands as its own parts between those of its parent;
/// a component is held by a request, escaped.
pub proof fn a_result_is_put_in(
    result: SsrResultV,
    child: SsrResultV,
    raw: bool,
    markers: bool,
    ctx: SsrContextV,
)
    ensures
        ({
            let done = result_child_v(result, child, raw, markers, ctx);
            &&& child.exprs.len() == 0 ==> done.1 == ctx && extends(
                result,
                done.0,
                seq![PartV::Opened] + child.parts + seq![PartV::Closed],
            )
            &&& child.exprs.len() > 0 ==> exists|shown: ExprV|
                #[trigger] is_value_of(shown, child, raw) && is_held(
                    done,
                    result,
                    shown,
                    markers && !child.spread_element,
                )
        }),
{
    let done = result_child_v(result, child, raw, markers, ctx);
    if child.exprs.len() == 0 {
        assert(done.0.parts =~= result.parts + (seq![PartV::Opened] + child.parts + seq![
            PartV::Closed,
        ]));
    } else {
        let plain = child.exprs[0];
        escaping_is_undone(plain, false, ctx);
        an_escaped_expression_is_safe(plain, false, false, ctx);
        let (shown, mid) = if !raw && !child.spread_element {
            escaped_v(plain, false, false, ctx)
        } else {
            (plain, ctx)
        };
        assert(is_value_of(shown, child, raw));
        assert(done == held_v(result, mid, shown, markers && !child.spread_element));
    }
}

// ---------------------------------------------------------------------------
// Elements with a spread
// ---------------------------------------------------------------------------

/// An expression is what stands for some nodes: nothing, the only one, or a list.
pub open spec fn stands_for(children: ExprV, nodes: Seq<ExprV>) -> bool {
    if nodes.len() == 0 {
        is_name(children, "undefined"@)
    } else if nodes.len() == 1 {
        children == nodes[0]
    } else {
        children.kind matches KindV::Array(items) && items.len() == nodes.len() && forall|i: int|
            0 <= i < items.len() ==> #[trigger] items[i] == crate::ast::ElementV::Expr(nodes[i])
    }
}

/// An element with a spread is rendered by the helper, from its tag, its
/// properties, its children, which a hydrated element computes late, and whether
/// it needs a key.
pub proof fn an_element_is_rendered(
    tag: Seq<char>,
    props: ExprV,
    nodes: Seq<ExprV>,
    hydrated: bool,
    top_level: bool,
)
    ensures
        ({
            let call = element_call_v(tag, props, nodes, hydrated, top_level);
            &&& calls_helper(call, "ssrElement"@, 4)
            &&& is_text(arg(call, 0), tag)
            &&& arg(call, 1) == props
            &&& exists|children: ExprV|
                #[trigger] stands_for(children, nodes) && if nodes.len() > 0 && hydrated {
                    is_thunk(arg(call, 2), children)
                } else {
                    arg(call, 2) == children
                }
            &&& is_flag(arg(call, 3), top_level && hydrated)
        }),
{
    reveal(element_call_v);
    let call = element_call_v(tag, props, nodes, hydrated, top_level);
    let children = if nodes.len() == 0 {
        crate::handlers::undefined_v()
    } else if nodes.len() == 1 {
        nodes[0]
    } else {
        crate::make::array_v(no_span(), nodes)
    };
    assert(stands_for(children, nodes));
    assert(nodes.len() > 0 && hydrated ==> is_thunk(arg(call, 2), children));
}

/// An attribute of an element with a spread is a property of its name: an escaped
/// text, a getter where it changes, its value, or `true`; what only the browser
/// uses is left out.
pub proof fn an_attribute_is_a_property(
    attr: JsxAttribute,
    has_children: bool,
    is_svg: bool,
    source: Seq<char>,
    options: TransformOptions,
    vocabulary: Vocabulary,
)
    ensures
        ({
            let done = attr_prop_v(attr, has_children, is_svg, source, options, vocabulary);
            let name = shown_name(attr.key@, is_svg, vocabulary);
            let client = is_client_only(attr.key@, has_children);
            &&& client ==> done is None
            &&& !client ==> match attr.value {
                JsxValue::Str { value, .. } => done is Some && exists|text: ExprV|
                    #[trigger] holds_value(done->0, name, text) && (text.kind matches KindV::Str(t)
                        && unescaped(t) == value@),
                JsxValue::Container { span, expr: Some(expr), .. } => {
                    let marked = static_marker(source, span, options.static_marker@);
                    &&& done is Some
                    &&& !marked && expr.facts.dynamic ==> gets_value(done->0, name, expr@)
                    &&& !marked && !expr.facts.dynamic ==> holds_value(done->0, name, expr@)
                    &&& marked ==> holds_value(
                        done->0,
                        name,
                        ExprV { span: no_span(), ..expr@ },
                    )
                },
                JsxValue::Absent => done is Some && exists|yes: ExprV|
                    #[trigger] holds_value(done->0, name, yes) && is_flag(yes, true),
                _ => done is None,
            }
        }),
{
    reveal(attr_prop_v);
    let done = attr_prop_v(attr, has_children, is_svg, source, options, vocabulary);
    let name = shown_name(attr.key@, is_svg, vocabulary);
    match attr.value {
        JsxValue::Str { value, .. } => {
            an_escaped_text_reads_back(value@, true);
            let text = crate::make::str_v(no_span(), escape_html_v(value@, true));
            assert(!is_client_only(attr.key@, has_children) ==> holds_value(done->0, name, text));
        },
        JsxValue::Absent => {
            let yes = crate::make::bool_v(no_span(), true);
            assert(!is_client_only(attr.key@, has_children) ==> holds_value(done->0, name, yes));
        },
        _ => {},
    }
}

/// What only the browser uses: refs, events, directives and properties, and the
/// attribute `children` of an element that has some.
pub proof fn what_only_the_browser_uses(key: Seq<char>, has_children: bool)
    ensures
        key == "ref"@ ==> is_client_only(key, has_children),
        starts_with(key, "on"@) ==> is_client_only(key, has_children),
        starts_with(key, "use:"@) ==> is_client_only(key, has_children),
        starts_with(key, "prop:"@) ==> is_client_only(key, has_children),
        key == "children"@ && has_children ==> is_client_only(key, has_children),
        key != "ref"@ && key != "children"@ && !starts_with(key, "on"@) && !starts_with(
            key,
            "use:"@,
        ) && !starts_with(key, "prop:"@) ==> !is_client_only(key, has_children),
{
}

/// A component that stands alone is created from its name and no properties.
pub proof fn a_component_is_created(
    child: JsxChild,
    ctx: SsrContextV,
    options: TransformOptions,
    vocabulary: Vocabulary,
)
    requires
        child is Element,
        child->Element_0.is_component,
    ensures
        ({
            let done = component_child_v(child, ctx, options, vocabulary).0;
            done is Some && (done->0).exprs.len() == 1 && (done->0).parts.len() == 0 && {
                let call = (done->0).exprs[0];
                &&& calls_helper(call, "createComponent"@, 2)
                &&& is_name(arg(call, 0), child->Element_0.tag@)
                &&& arg(call, 1).kind matches KindV::Object(props) && props.len() == 0
            }
        }),
{
}

// ---------------------------------------------------------------------------
// Prefixed attributes
// ---------------------------------------------------------------------------

/// A property is the attribute of this key, without the prefix.
pub open spec fn is_given(attr: JsxAttr, prefix: Seq<char>, prop: NamespacePropertyV) -> bool {
    attr matches JsxAttr::Named(attr) && attr.key@ == prefix + prop.name && (match attr.value {
        JsxValue::Container { span, expr: Some(expr), .. } => prop.value == expr@,
        JsxValue::Str { value, .. } => is_text(prop.value, value@),
        JsxValue::Absent => is_flag(prop.value, true),
        _ => false,
    })
}

/// The attributes with a prefix are taken in order, each under the rest of its
/// key and with its value, and none is missed.
pub proof fn prefixed_attributes_are_taken(attrs: Seq<JsxAttr>, prefix: Seq<char>)
    ensures
        ({
            let (props, places) = all_given_in_v(attrs, prefix);
            &&& props.len() == places.len()
            &&& forall|k: int|
                0 <= k < places.len() ==> (#[trigger] places[k]) < attrs.len() && is_given(
                    attrs[places[k] as int],
                    prefix,
                    props[k],
                )
            &&& forall|j: int, k: int|
                0 <= j < k < places.len() ==> #[trigger] places[j] < #[trigger] places[k]
            &&& forall|i: int|
                0 <= i < attrs.len() && (#[trigger] attrs[i]) is Named && starts_with(
                    attrs[i]->Named_0.key@,
                    prefix,
                ) && namespace_value_v(attrs[i]->Named_0) is Some ==> places.contains(i as nat)
        }),
    decreases attrs.len(),
{
    if attrs.len() > 0 {
        let front = attrs.drop_last();
        prefixed_attributes_are_taken(front, prefix);
        let before = all_given_in_v(front, prefix);
        let (props, places) = all_given_in_v(attrs, prefix);
        if let JsxAttr::Named(attr) = &attrs[attrs.len() - 1] {
            if starts_with(attr.key@, prefix) {
                assert(attr.key@ =~= prefix + attr.key@.skip(prefix.len() as int));
            }
        }
        assert forall|k: int| 0 <= k < places.len() implies (#[trigger] places[k]) < attrs.len()
            && is_given(attrs[places[k] as int], prefix, props[k]) by {
            if k < before.1.len() {
                assert(before.1[k] == places[k]);
                assert(front[places[k] as int] == attrs[places[k] as int]);
            }
        }
        assert forall|i: int|
            0 <= i < attrs.len() && (#[trigger] attrs[i]) is Named && starts_with(
                attrs[i]->Named_0.key@,
                prefix,
            ) && namespace_value_v(attrs[i]->Named_0) is Some implies places.contains(i as nat) by {
            if i < front.len() {
                assert(front[i] == attrs[i]);
                let k = choose|k: int| 0 <= k < before.1.len() && before.1[k] == i as nat;
                assert(places[k] == i as nat);
            } else {
                assert(places[places.len() - 1] == i as nat);
            }
        }
    }
}

/// Such attributes make one object, with a property for each, and it changes
/// where one of them does.
pub proof fn prefixed_attributes_make_an_object(props: Seq<NamespacePropertyV>)
    ensures
        namespace_object_v(props).kind matches KindV::Object(items) && items.len() == props.len()
            && forall|i: int|
            0 <= i < props.len() ==> holds_value(
                #[trigger] items[i],
                props[i].name,
                props[i].value,
            ),
        namespace_object_v(props).facts.dynamic <==> exists|i: int|
            0 <= i < props.len() && (#[trigger] props[i]).value.facts.dynamic,
{
}

/// They are added behind the properties of an object that is written.
pub proof fn prefixed_attributes_are_added(expr: ExprV, props: Seq<NamespacePropertyV>)
    ensures
        crate::peel::peeled_v(expr).kind matches KindV::Object(own) ==> (merged_object_v(
            expr,
            props,
        ) matches Some(object) && (object.kind matches KindV::Object(items) && items.len()
            == own.len() + props.len() && items.take(own.len() as int) == own && forall|i: int|
            0 <= i < props.len() ==> holds_value(
                #[trigger] items[own.len() + i],
                props[i].name,
                props[i].value,
            ))),
        !(crate::peel::peeled_v(expr).kind is Object) ==> merged_object_v(expr, props) is None,
{
    if let KindV::Object(own) = crate::peel::peeled_v(expr).kind {
        let items = own + object_props_v(props);
        assert(items.take(own.len() as int) =~= own);
    }
}

/// The first `style` and the last `class` are the ones that count.
pub proof fn the_first_style_and_the_last_class(attrs: Seq<JsxAttr>)
    ensures
        plan_v(attrs).style_attr matches Some(at) ==> at < attrs.len() && has_plain_key(
            attrs[at as int],
            "style"@,
        ) && forall|i: int| 0 <= i < at ==> !has_plain_key(#[trigger] attrs[i], "style"@),
        plan_v(attrs).class_attr matches Some(at) ==> at < attrs.len() && has_plain_key(
            attrs[at as int],
            "class"@,
        ) && forall|i: int|
            at < i < attrs.len() ==> !has_plain_key(#[trigger] attrs[i], "class"@),
        plan_v(attrs).style_attr is None ==> forall|i: int|
            0 <= i < attrs.len() ==> !has_plain_key(#[trigger] attrs[i], "style"@),
        plan_v(attrs).class_attr is None ==> forall|i: int|
            0 <= i < attrs.len() ==> !has_plain_key(#[trigger] attrs[i], "class"@),
{
    reveal(plan_v);
    places_are(attrs, "style"@);
    places_are(attrs, "class"@);
    let style = crate::ssr_attributes::places_v(attrs, "style"@);
    let class = crate::ssr_attributes::places_v(attrs, "class"@);
    if style.len() > 0 {
        assert forall|i: int| 0 <= i < style[0] implies !has_plain_key(
            #[trigger] attrs[i],
            "style"@,
        ) by {
            if has_plain_key(attrs[i], "style"@) {
                let k = choose|k: int| 0 <= k < style.len() && style[k] == i as nat;
                assert(style[0] <= style[k]);
            }
        }
    }
    if class.len() > 0 {
        let at = class.last();
        assert forall|i: int| at < i < attrs.len() implies !has_plain_key(
            #[trigger] attrs[i],
            "class"@,
        ) by {
            if has_plain_key(attrs[i], "class"@) {
                let k = choose|k: int| 0 <= k < class.len() && class[k] == i as nat;
                assert(class[k] <= class[class.len() - 1]);
            }
        }
    }
}

/// An attribute has exactly this key.
pub open spec fn has_plain_key(attr: JsxAttr, key: Seq<char>) -> bool {
    attr is Named && attr->Named_0.key@ == key
}

proof fn places_are(attrs: Seq<JsxAttr>, key: Seq<char>)
    ensures
        ({
            let places = crate::ssr_attributes::places_v(attrs, key);
            &&& forall|k: int|
                0 <= k < places.len() ==> (#[trigger] places[k]) < attrs.len() && has_plain_key(
                    attrs[places[k] as int],
                    key,
                )
            &&& forall|j: int, k: int|
                0 <= j <= k < places.len() ==> #[trigger] places[j] <= #[trigger] places[k]
            &&& forall|i: int|
                0 <= i < attrs.len() && has_plain_key(#[trigger] attrs[i], key) ==> places.contains(
                    i as nat,
                )
        }),
    decreases attrs.len(),
{
    if attrs.len() > 0 {
        let front = attrs.drop_last();
        places_are(front, key);
        let before = crate::ssr_attributes::places_v(front, key);
        let places = crate::ssr_attributes::places_v(attrs, key);
        assert forall|k: int| 0 <= k < places.len() implies (#[trigger] places[k]) < attrs.len()
            && has_plain_key(attrs[places[k] as int], key) by {
            if k < before.len() {
                assert(before[k] == places[k]);
                assert(front[places[k] as int] == attrs[places[k] as int]);
            }
        }
        assert forall|i: int|
            0 <= i < attrs.len() && has_plain_key(
                #[trigger] attrs[i],
                key,
            ) implies places.contains(i as nat) by {
            if i < front.len() {
                assert(front[i] == attrs[i]);
                let k = choose|k: int| 0 <= k < before.len() && before[k] == i as nat;
                assert(places[k] == i as nat);
            } else {
                assert(places[places.len() - 1] == i as nat);
            }
        }
    }
}

} // verus!
