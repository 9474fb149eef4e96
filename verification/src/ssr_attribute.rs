//! A single attribute of an element that is rendered on a server.

use crate::ast::{
    expr_value, kind_value, no_span, nowhere, prop_value, prop_values, BinaryOp, Expr, ExprV,
    JsxAttribute, JsxValue, Key, KeyV, Kind, KindV, Prop, PropV, Span, UnaryOp,
};
use crate::attributes::cloned;
use crate::copy::with_span;
use crate::escape::{escaped_v, wrap_escape_expr, wrap_escape_expr_with_options};
use crate::ir::{helper_ident_expr, helper_v, opt};
use crate::make::{
    binary, binary_v, call1, call2, call_v, copied, str_v, string, thunk, thunk_v, with_span_v,
};
use crate::marker::static_marker;
use crate::options::TransformOptions;
use crate::outside::{same, share};
use crate::peel::{
    literal_text_from_expr, literal_text_v, peel_wrapped_expression, peeled_v, peeled_value,
};
use crate::ssr::{hoist_expression, hoist_v, Part, PartV, SsrContext, SsrContextV, SsrResult, SsrResultV};
use crate::text::{
    after_first, before_first, escape_html, escape_html_v, has_prefix, join, join_v, joined,
    replace_pair, replace_v, split_once, starts_with, texts, trim_whitespace, trim_whitespace_v,
};
use crate::vocabulary::Vocabulary;
use std::rc::Rc;
use vstd::prelude::*;

verus! {

// ---------------------------------------------------------------------------
// Names
// ---------------------------------------------------------------------------

/// A key without a namespace that stands for a way to set it.
pub open spec fn stripped(key: Seq<char>) -> Seq<char> {
    match before_first(key, ':') {
        Some(ns) => if ns == "class"@ || ns == "on"@ || ns == "style"@ || ns == "use"@ || ns
            == "prop"@ {
            after_first(key, ':')->0
        } else {
            key
        },
        None => key,
    }
}

/// A key without a namespace that stands for a way to set it.
pub fn strip_reserved_namespace_prefix(key: &str) -> (name: String)
    ensures
        name@ == stripped(key@),
{
    if let Some((ns, name)) = split_once(key, ':') {
        let ns = ns.as_str();
        if same(ns, "class") || same(ns, "on") || same(ns, "style") || same(ns, "use") || same(
            ns,
            "prop",
        ) {
            return name;
        }
    }
    copied(key)
}

/// The name under which an attribute is written; on SVG it has no other.
pub open spec fn written_v(key: Seq<char>, is_svg: bool, vocabulary: Vocabulary) -> Seq<char> {
    if is_svg {
        key
    } else {
        vocabulary.written(key)
    }
}

pub fn written(key: &str, is_svg: bool, vocabulary: &Vocabulary) -> (name: String)
    ensures
        name@ == written_v(key@, is_svg, *vocabulary),
{
    if is_svg {
        copied(key)
    } else {
        copied(vocabulary.written_name(key))
    }
}

/// An attribute with a value that is escaped; without one where it is empty.
pub open spec fn plain_attr_v(name: Seq<char>, value: Seq<char>) -> Seq<char> {
    let escaped = escape_html_v(value, true);
    if escaped.len() == 0 {
        " "@ + name
    } else {
        " "@ + name + "=\""@ + escaped + "\""@
    }
}

fn plain_attr(name: &str, value: &str) -> (text: String)
    ensures
        text@ == plain_attr_v(name@, value@),
{
    let escaped = escape_html(value, true);
    let mut text = joined(" ", name);
    if escaped.as_str().unicode_len() > 0 {
        text.append("=\"");
        text.append(escaped.as_str());
        text.append("\"");
    }
    text
}

// ---------------------------------------------------------------------------
// Objects
// ---------------------------------------------------------------------------

/// The name of a key that is a name or a string.
pub open spec fn key_text(key: KeyV) -> Option<Seq<char>> {
    match key {
        KeyV::Ident(name) => Some(name),
        KeyV::Str(name) => Some(name),
        _ => None,
    }
}

fn text_of_key(key: &Key) -> (text: Option<String>)
    ensures
        opt(text) == key_text(key@),
{
    match key {
        Key::Ident(name) => Some(name.clone()),
        Key::Str(name) => Some(name.clone()),
        _ => None,
    }
}

/// The keys of an object whose values are all booleans, where these are true.
pub open spec fn true_keys_v(props: Seq<PropV>) -> Option<Seq<Seq<char>>>
    decreases props.len(),
{
    if props.len() == 0 {
        Some(seq![])
    } else {
        match (true_keys_v(props.drop_last()), props.last()) {
            (Some(keys), PropV::Named { key, value, computed, .. }) => match peeled_v(value).kind {
                KindV::Bool(on) => if !on {
                    Some(keys)
                } else if computed {
                    None
                } else {
                    match key_text(key) {
                        Some(name) => Some(keys.push(name)),
                        None => None,
                    }
                },
                _ => None,
            },
            _ => None,
        }
    }
}

proof fn true_keys_fail(props: Seq<PropV>, n: int)
    requires
        0 <= n <= props.len(),
        true_keys_v(props.take(n)) is None,
    ensures
        true_keys_v(props) is None,
    decreases props.len() - n,
{
    if n == props.len() {
        assert(props.take(n) =~= props);
    } else {
        assert(props.take(n + 1).drop_last() =~= props.take(n));
        true_keys_fail(props, n + 1);
    }
}

fn true_keys(props: &Vec<Prop>) -> (keys: Option<Vec<String>>)
    ensures
        match keys {
            Some(keys) => true_keys_v(prop_values(props@)) == Some(texts(keys@)),
            None => true_keys_v(prop_values(props@)) is None,
        },
{
    let ghost all = prop_values(props@);
    let mut keys: Vec<String> = Vec::new();
    let mut i: usize = 0;
    proof {
        assert(all.take(0) =~= seq![]);
        assert(texts(keys@) =~= seq![]);
    }
    while i < props.len()
        invariant
            i <= props.len(),
            all == prop_values(props@),
            all.len() == props@.len(),
            true_keys_v(all.take(i as int)) == Some(texts(keys@)),
        decreases props.len() - i,
    {
        let ghost longer = all.take(i + 1);
        proof {
            assert(longer.drop_last() =~= all.take(i as int));
            assert(longer.last() == props@[i as int]@);
            reveal_with_fuel(prop_value, 2);
        }
        let mut fails = true;
        if let Prop::Named { key, value, computed, .. } = &props[i] {
            proof {
                peeled_value(value);
                reveal_with_fuel(expr_value, 2);
                reveal_with_fuel(kind_value, 2);
            }
            if let Kind::Bool(on) = &peel_wrapped_expression(value).kind {
                if !*on {
                    fails = false;
                } else if !*computed {
                    if let Some(name) = text_of_key(key) {
                        let ghost before = keys@;
                        keys.push(name);
                        proof {
                            assert(texts(keys@) =~= texts(before).push(name@));
                        }
                        fails = false;
                    }
                }
            }
        }
        if fails {
            proof {
                true_keys_fail(all, i + 1);
            }
            return None;
        }
        i = i + 1;
    }
    proof {
        assert(all.take(all.len() as int) =~= all);
    }
    Some(keys)
}

/// The classes of an object whose values are all known.
pub open spec fn known_classes_v(expr: ExprV) -> Option<Seq<char>> {
    match peeled_v(expr).kind {
        KindV::Object(props) => match true_keys_v(props) {
            Some(keys) => Some(join_v(keys, "  "@)),
            None => None,
        },
        _ => None,
    }
}

fn class_object_all_true_string(expr: &Expr) -> (classes: Option<String>)
    ensures
        opt(classes) == known_classes_v(expr@),
{
    proof {
        peeled_value(expr);
        reveal_with_fuel(expr_value, 2);
        reveal_with_fuel(kind_value, 2);
    }
    match &peel_wrapped_expression(expr).kind {
        Kind::Object(props) => match true_keys(props) {
            Some(keys) => Some(join(&keys, "  ")),
            None => None,
        },
        _ => None,
    }
}

/// The styles of an object, where all its keys are known.
pub open spec fn styles_v(props: Seq<PropV>) -> Option<Seq<(Seq<char>, ExprV)>>
    decreases props.len(),
{
    if props.len() == 0 {
        Some(seq![])
    } else {
        match (styles_v(props.drop_last()), props.last()) {
            (Some(styles), PropV::Named { key, value, .. }) => match key_text(key) {
                Some(name) => Some(styles.push((name, with_span_v(value, no_span())))),
                None => None,
            },
            _ => None,
        }
    }
}

/// The first `n` styles, one behind the other.
pub open spec fn style_chain_v(styles: Seq<(Seq<char>, ExprV)>, n: nat, ctx: SsrContextV) -> (
    ExprV,
    SsrContextV,
)
    decreases n,
{
    if n == 0 || n > styles.len() {
        (str_v(no_span(), ""@), ctx)
    } else {
        let before = style_chain_v(styles, (n - 1) as nat, ctx);
        let (name, value) = styles[n - 1];
        let escaped = escaped_v(value, true, true, before.1);
        let full = if n == 1 {
            name + ":"@
        } else {
            ";"@ + name + ":"@
        };
        let call = call_v(
            no_span(),
            helper_v(no_span(), "ssrStyleProperty"@),
            seq![str_v(no_span(), full), escaped.0],
        );
        (
            if n == 1 {
                call
            } else {
                binary_v(no_span(), before.0, BinaryOp::Addition, call)
            },
            escaped.1,
        )
    }
}

/// A style: an object is put together style by style, where its keys are known.
#[verifier::opaque]
pub open spec fn style_value_v(expr: ExprV, ctx: SsrContextV) -> (ExprV, SsrContextV) {
    let styles = match peeled_v(expr).kind {
        KindV::Object(props) => styles_v(props),
        _ => None,
    };
    match styles {
        Some(styles) => if styles.len() == 0 {
            (str_v(no_span(), ""@), ctx)
        } else {
            style_chain_v(styles, styles.len(), ctx.with_helper("ssrStyleProperty"@))
        },
        None => (
            call_v(no_span(), helper_v(no_span(), "ssrStyle"@), seq![expr]),
            ctx.with_helper("ssrStyle"@),
        ),
    }
}

pub open spec fn style_values(items: Seq<(String, Rc<Expr>)>) -> Seq<(Seq<char>, ExprV)> {
    items.map_values(|s: (String, Rc<Expr>)| (s.0@, s.1@))
}

proof fn styles_fail(props: Seq<PropV>, n: int)
    requires
        0 <= n <= props.len(),
        styles_v(props.take(n)) is None,
    ensures
        styles_v(props) is None,
    decreases props.len() - n,
{
    if n == props.len() {
        assert(props.take(n) =~= props);
    } else {
        assert(props.take(n + 1).drop_last() =~= props.take(n));
        styles_fail(props, n + 1);
    }
}

fn styles_of(props: &Vec<Prop>) -> (styles: Option<Vec<(String, Rc<Expr>)>>)
    ensures
        match styles {
            Some(styles) => styles_v(prop_values(props@)) == Some(style_values(styles@)),
            None => styles_v(prop_values(props@)) is None,
        },
{
    let ghost all = prop_values(props@);
    let mut styles: Vec<(String, Rc<Expr>)> = Vec::new();
    let mut i: usize = 0;
    proof {
        assert(all.take(0) =~= seq![]);
        assert(style_values(styles@) =~= seq![]);
    }
    while i < props.len()
        invariant
            i <= props.len(),
            all == prop_values(props@),
            all.len() == props@.len(),
            styles_v(all.take(i as int)) == Some(style_values(styles@)),
        decreases props.len() - i,
    {
        let ghost longer = all.take(i + 1);
        proof {
            assert(longer.drop_last() =~= all.take(i as int));
            assert(longer.last() == props@[i as int]@);
            reveal_with_fuel(prop_value, 2);
        }
        let mut fails = true;
        if let Prop::Named { key, value, .. } = &props[i] {
            if let Some(name) = text_of_key(key) {
                let ghost before = styles@;
                let value = with_span(value, nowhere());
                styles.push((name, value));
                proof {
                    assert(style_values(styles@) =~= style_values(before).push((name@, value@)));
                }
                fails = false;
            }
        }
        if fails {
            proof {
                styles_fail(all, i + 1);
            }
            return None;
        }
        i = i + 1;
    }
    proof {
        assert(all.take(all.len() as int) =~= all);
    }
    Some(styles)
}

fn chain_styles(styles: &Vec<(String, Rc<Expr>)>, context: &mut SsrContext) -> (chain: Rc<Expr>)
    ensures
        (chain@, final(context)@) == style_chain_v(
            style_values(styles@),
            styles@.len(),
            old(context)@,
        ),
{
    let ghost all = style_values(styles@);
    let mut chain = string(nowhere(), "");
    let mut i: usize = 0;
    while i < styles.len()
        invariant
            i <= styles.len(),
            all == style_values(styles@),
            (chain@, context@) == style_chain_v(all, i as nat, old(context)@),
        decreases styles.len() - i,
    {
        proof {
            assert(all[i as int] == (styles@[i as int].0@, styles@[i as int].1@));
        }
        let name = styles[i].0.as_str();
        let full = if i == 0 {
            joined(name, ":")
        } else {
            joined(joined(";", name).as_str(), ":")
        };
        let value = wrap_escape_expr_with_options(&styles[i].1, true, true, context);
        let call = call2(
            nowhere(),
            helper_ident_expr(nowhere(), "ssrStyleProperty"),
            string(nowhere(), full.as_str()),
            value,
        );
        chain = if i == 0 {
            call
        } else {
            binary(nowhere(), chain, BinaryOp::Addition, call)
        };
        i = i + 1;
    }
    chain
}

/// A style.
fn style_value(expr: &Rc<Expr>, context: &mut SsrContext) -> (value: Rc<Expr>)
    ensures
        (value@, final(context)@) == style_value_v(expr@, old(context)@),
{
    proof {
        reveal(style_value_v);
        peeled_value(expr);
        reveal_with_fuel(expr_value, 2);
        reveal_with_fuel(kind_value, 2);
    }
    if let Kind::Object(props) = &peel_wrapped_expression(expr).kind {
        if let Some(styles) = styles_of(props) {
            if styles.len() == 0 {
                return string(nowhere(), "");
            }
            context.register_helper("ssrStyleProperty");
            return chain_styles(&styles, context);
        }
    }
    context.register_helper("ssrStyle");
    call1(nowhere(), helper_ident_expr(nowhere(), "ssrStyle"), share(expr))
}

/// A member of a name, by a name or a string.
pub open spec fn is_simple_member(expr: ExprV) -> bool {
    match peeled_v(expr).kind {
        KindV::Member { object, .. } => peeled_v(*object).kind is Ident,
        KindV::Index { object, index, .. } => peeled_v(*object).kind is Ident && peeled_v(
            *index,
        ).kind is Str,
        _ => false,
    }
}

fn is_simple_static_member_expr(expr: &Expr) -> (yes: bool)
    ensures
        yes == is_simple_member(expr@),
{
    proof {
        peeled_value(expr);
        reveal_with_fuel(expr_value, 2);
        reveal_with_fuel(kind_value, 2);
    }
    match &peel_wrapped_expression(expr).kind {
        Kind::Member { object, .. } => is_ident(object),
        Kind::Index { object, index, .. } => is_ident(object) && is_string(index),
        _ => false,
    }
}

fn is_ident(expr: &Expr) -> (yes: bool)
    ensures
        yes == (peeled_v(expr@).kind is Ident),
{
    proof {
        peeled_value(expr);
        reveal_with_fuel(expr_value, 2);
        reveal_with_fuel(kind_value, 2);
    }
    match &peel_wrapped_expression(expr).kind {
        Kind::Ident { .. } => true,
        _ => false,
    }
}

fn is_string(expr: &Expr) -> (yes: bool)
    ensures
        yes == (peeled_v(expr@).kind is Str),
{
    proof {
        peeled_value(expr);
        reveal_with_fuel(expr_value, 2);
        reveal_with_fuel(kind_value, 2);
    }
    match &peel_wrapped_expression(expr).kind {
        Kind::Str(_) => true,
        _ => false,
    }
}

// ---------------------------------------------------------------------------
// Attributes
// ---------------------------------------------------------------------------

/// A value that is hoisted where it changes.
pub open spec fn slot_v(
    result: SsrResultV,
    ctx: SsrContextV,
    value: ExprV,
    hoisted: bool,
    grouped: bool,
    post: bool,
    plain: bool,
) -> (SsrResultV, SsrContextV, ExprV) {
    if hoisted {
        hoist_v(result, ctx, thunk_v(no_span(), value), grouped, post, plain)
    } else {
        (result, ctx, value)
    }
}

fn slot(
    result: &mut SsrResult,
    context: &mut SsrContext,
    value: Rc<Expr>,
    hoisted: bool,
    grouped: bool,
    post: bool,
    plain: bool,
) -> (held: Rc<Expr>)
    ensures
        (final(result)@, final(context)@, held@) == slot_v(
            old(result)@,
            old(context)@,
            value@,
            hoisted,
            grouped,
            post,
            plain,
        ),
{
    if hoisted {
        hoist_expression(context, result, thunk(nowhere(), value), grouped, post, plain)
    } else {
        value
    }
}

/// An attribute between quotes, with a value of its own.
pub open spec fn quoted_v(result: SsrResultV, value: ExprV) -> SsrResultV {
    result.with_part(PartV::Piece("\""@)).with_part(PartV::Value(value))
}

/// `style`.
#[verifier::opaque]
pub open spec fn style_attr_v(
    name: Seq<char>,
    value: ExprV,
    dynamic: bool,
    result: SsrResultV,
    ctx: SsrContextV,
) -> (SsrResultV, SsrContextV) {
    let begun = result.with_static(" "@ + name + "=\""@);
    let style = style_value_v(value, ctx);
    let held = slot_v(begun, style.1, style.0, dynamic, true, false, false);
    (quoted_v(held.0, held.2), held.1)
}

/// `class`.
#[verifier::opaque]
pub open spec fn class_attr_v(
    value: ExprV,
    dynamic: bool,
    result: SsrResultV,
    ctx: SsrContextV,
) -> (SsrResultV, SsrContextV) {
    let begun = result.with_static(" class=\""@);
    let (class, ctx1) = match known_classes_v(value) {
        Some(classes) => (str_v(no_span(), classes), ctx),
        None => (
            call_v(no_span(), helper_v(no_span(), "ssrClassName"@), seq![value]),
            ctx.with_helper("ssrClassName"@),
        ),
    };
    let held = slot_v(
        begun,
        ctx1,
        class,
        dynamic && !is_simple_member(value),
        false,
        false,
        true,
    );
    (quoted_v(held.0, held.2), held.1)
}

/// Any other attribute: `ssrAttribute("name", value)`.
#[verifier::opaque]
pub open spec fn other_attr_v(
    key: Seq<char>,
    name: Seq<char>,
    value: ExprV,
    dynamic: bool,
    result: SsrResultV,
    ctx: SsrContextV,
) -> (SsrResultV, SsrContextV) {
    let is_void = peeled_v(value).kind matches KindV::Unary { op, argument } && op
        == UnaryOp::Void;
    let (safe, ctx1) = if is_void {
        (value, ctx)
    } else {
        escaped_v(value, true, false, ctx)
    };
    let call = call_v(
        no_span(),
        helper_v(no_span(), "ssrAttribute"@),
        seq![str_v(no_span(), name), safe],
    );
    let post = key == "value"@ || key == "checked"@;
    let held = slot_v(
        result,
        ctx1.with_helper("ssrAttribute"@),
        call,
        dynamic,
        true,
        post,
        false,
    );
    let set = held.0.with_part(PartV::Value(held.2));
    (
        if post || !dynamic {
            set.with_part(PartV::Piece(""@))
        } else {
            set
        },
        held.1,
    )
}

/// An attribute with an expression.
#[verifier::opaque]
pub open spec fn expr_attr_v(
    key: Seq<char>,
    expr: ExprV,
    span: Span,
    is_svg: bool,
    result: SsrResultV,
    ctx: SsrContextV,
    options: TransformOptions,
    vocabulary: Vocabulary,
) -> (SsrResultV, SsrContextV) {
    let name = written_v(stripped(key), is_svg, vocabulary);
    match (peeled_v(expr).kind, literal_text_v(expr)) {
        (KindV::Bool(on), _) => (
            if on {
                result.with_static(" "@ + name)
            } else {
                result
            },
            ctx,
        ),
        (_, Some(text)) => (result.with_static(plain_attr_v(name, text)), ctx),
        _ => {
            let marked = static_marker(ctx.source, span, options.static_marker@);
            let dynamic = !marked && expr.facts.dynamic;
            let value = if marked {
                with_span_v(expr, no_span())
            } else {
                expr
            };
            if key == "style"@ {
                style_attr_v(name, value, dynamic, result, ctx)
            } else if key == "class"@ {
                class_attr_v(value, dynamic, result, ctx)
            } else {
                other_attr_v(key, name, value, dynamic, result, ctx)
            }
        },
    }
}

fn push_quoted(result: &mut SsrResult, value: Rc<Expr>)
    ensures
        final(result)@ == quoted_v(old(result)@, value@),
{
    result.push(Part::Piece(copied("\"")));
    result.push(Part::Value(value));
}

fn style_attr(
    name: &str,
    value: &Rc<Expr>,
    dynamic: bool,
    result: &mut SsrResult,
    context: &mut SsrContext,
)
    ensures
        (final(result)@, final(context)@) == style_attr_v(
            name@,
            value@,
            dynamic,
            old(result)@,
            old(context)@,
        ),
{
    proof {
        reveal(style_attr_v);
    }
    result.push_static(joined(joined(" ", name).as_str(), "=\"").as_str());
    let style = style_value(value, context);
    let held = slot(result, context, style, dynamic, true, false, false);
    push_quoted(result, held);
}

fn class_attr(
    value: &Rc<Expr>,
    dynamic: bool,
    result: &mut SsrResult,
    context: &mut SsrContext,
)
    ensures
        (final(result)@, final(context)@) == class_attr_v(
            value@,
            dynamic,
            old(result)@,
            old(context)@,
        ),
{
    proof {
        reveal(class_attr_v);
    }
    result.push_static(" class=\"");
    let hoisted = dynamic && !is_simple_static_member_expr(value);
    let class = match class_object_all_true_string(value) {
        Some(classes) => string(nowhere(), classes.as_str()),
        None => {
            context.register_helper("ssrClassName");
            call1(nowhere(), helper_ident_expr(nowhere(), "ssrClassName"), share(value))
        },
    };
    let held = slot(result, context, class, hoisted, false, false, true);
    push_quoted(result, held);
}

fn other_attr(
    key: &str,
    name: &str,
    value: &Rc<Expr>,
    dynamic: bool,
    result: &mut SsrResult,
    context: &mut SsrContext,
)
    ensures
        (final(result)@, final(context)@) == other_attr_v(
            key@,
            name@,
            value@,
            dynamic,
            old(result)@,
            old(context)@,
        ),
{
    proof {
        reveal(other_attr_v);
        peeled_value(value);
        reveal_with_fuel(expr_value, 2);
        reveal_with_fuel(kind_value, 2);
    }
    let is_void = match &peel_wrapped_expression(value).kind {
        Kind::Unary { op, .. } => *op == UnaryOp::Void,
        _ => false,
    };
    let safe = if is_void {
        share(value)
    } else {
        wrap_escape_expr(value, true, context)
    };
    context.register_helper("ssrAttribute");
    let call = call2(
        nowhere(),
        helper_ident_expr(nowhere(), "ssrAttribute"),
        string(nowhere(), name),
        safe,
    );
    let post = same(key, "value") || same(key, "checked");
    let held = slot(result, context, call, dynamic, true, post, false);
    result.push(Part::Value(held));
    if post || !dynamic {
        result.push(Part::Piece(copied("")));
    }
}

/// Transforms an attribute with an expression.
pub fn transform_expression_attribute(
    key: &str,
    expr: &Rc<Expr>,
    span: Span,
    is_svg: bool,
    result: &mut SsrResult,
    context: &mut SsrContext,
    options: &TransformOptions,
    vocabulary: &Vocabulary,
)
    ensures
        (final(result)@, final(context)@) == expr_attr_v(
            key@,
            expr@,
            span,
            is_svg,
            old(result)@,
            old(context)@,
            *options,
            *vocabulary,
        ),
{
    proof {
        reveal(expr_attr_v);
        peeled_value(expr);
        reveal_with_fuel(expr_value, 2);
        reveal_with_fuel(kind_value, 2);
    }
    let bare = strip_reserved_namespace_prefix(key);
    let name = written(bare.as_str(), is_svg, vocabulary);
    if let Kind::Bool(on) = &peel_wrapped_expression(expr).kind {
        if *on {
            result.push_static(joined(" ", name.as_str()).as_str());
        }
        return;
    }
    if let Some(text) = literal_text_from_expr(expr) {
        result.push_static(plain_attr(name.as_str(), text.as_str()).as_str());
        return;
    }
    let marked = context.has_static_marker_comment(span, options.static_marker);
    let dynamic = !marked && expr.facts.dynamic;
    let value = cloned(expr, marked);
    if same(key, "style") {
        style_attr(name.as_str(), &value, dynamic, result, context);
    } else if same(key, "class") {
        class_attr(&value, dynamic, result, context);
    } else {
        other_attr(key, name.as_str(), &value, dynamic, result, context);
    }
}

/// The text of an attribute that is a string.
pub open spec fn string_value_v(key: Seq<char>, value: Seq<char>) -> Seq<char> {
    if key == "style"@ {
        replace_v(
            replace_v(trim_whitespace_v(value), seq![';', ' '], seq![';']),
            seq![':', ' '],
            seq![':'],
        )
    } else if key == "class"@ {
        trim_whitespace_v(value)
    } else {
        value
    }
}

fn string_value(key: &str, value: &str) -> (text: String)
    ensures
        text@ == string_value_v(key@, value@),
{
    if same(key, "style") {
        let first = replace_pair(trim_whitespace(value).as_str(), ';', ' ', ';');
        replace_pair(first.as_str(), ':', ' ', ':')
    } else if same(key, "class") {
        trim_whitespace(value)
    } else {
        copied(value)
    }
}

/// An attribute; those that a server has no use for are left out.
#[verifier::opaque]
pub open spec fn attr_v(
    attr: JsxAttribute,
    is_svg: bool,
    result: SsrResultV,
    ctx: SsrContextV,
    options: TransformOptions,
    vocabulary: Vocabulary,
) -> (SsrResultV, SsrContextV) {
    let key = attr.key@;
    let name = written_v(key, is_svg, vocabulary);
    if key == "ref"@ || starts_with(key, "use:"@) || starts_with(key, "prop:"@)
        || vocabulary.is_child_property(key) {
        (result, ctx)
    } else {
        match attr.value {
            JsxValue::Str { value, .. } => (
                result.with_static(plain_attr_v(name, string_value_v(key, value@))),
                ctx,
            ),
            JsxValue::Container { span, expr: Some(expr), .. } => if starts_with(key, "on"@) {
                (result, ctx)
            } else {
                expr_attr_v(key, expr@, span, is_svg, result, ctx, options, vocabulary)
            },
            JsxValue::Absent => (result.with_static(" "@ + name), ctx),
            _ => (result, ctx),
        }
    }
}

/// Transforms an attribute.
pub fn transform_attribute(
    attr: &JsxAttribute,
    is_svg: bool,
    result: &mut SsrResult,
    context: &mut SsrContext,
    options: &TransformOptions,
    vocabulary: &Vocabulary,
)
    ensures
        (final(result)@, final(context)@) == attr_v(
            *attr,
            is_svg,
            old(result)@,
            old(context)@,
            *options,
            *vocabulary,
        ),
{
    proof {
        reveal(attr_v);
    }
    let key = attr.key.as_str();
    if same(key, "ref") || has_prefix(key, "use:") || has_prefix(key, "prop:")
        || vocabulary.child_property(key) {
        return;
    }
    let name = written(key, is_svg, vocabulary);
    match &attr.value {
        JsxValue::Str { value, .. } => {
            let text = string_value(key, value.as_str());
            result.push_static(plain_attr(name.as_str(), text.as_str()).as_str());
        },
        JsxValue::Container { span, expr: Some(expr), .. } => {
            if !has_prefix(key, "on") {
                transform_expression_attribute(
                    key,
                    expr,
                    *span,
                    is_svg,
                    result,
                    context,
                    options,
                    vocabulary,
                );
            }
        },
        JsxValue::Absent => {
            result.push_static(joined(" ", name.as_str()).as_str());
        },
        _ => {},
    }
}

} // verus!
