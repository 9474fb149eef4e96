//! What the parts of an element that is rendered on the server show.

use crate::ast::{no_span, BinaryOp, ExprV, JsxAttribute, JsxValue, KeyV, KindV, PropV, Span, UnaryOp};
use crate::escape::escaped_v;
use crate::escape_laws::{
    an_escaped_expression_is_safe, bared, escaping_is_undone, is_safe,
};
use crate::marker::static_marker;
use crate::options::TransformOptions;
use crate::peel::{literal_text_v, peeled_v};
use crate::shape::{arg, calls_helper, is_text, is_thunk};
use crate::ssr::{PartV, RequestV, SsrContextV, SsrResultV};
use crate::ssr_attribute::{
    attr_v, class_attr_v, expr_attr_v, known_classes_v, other_attr_v, plain_attr_v, string_value_v,
    stripped, style_attr_v, style_chain_v, style_value_v, styles_v, true_keys_v,
};
use crate::text::{before_first, escape_html_v, join_v, replace_v, starts_with, trim_whitespace_v};
use crate::text_laws::{
    a_text_is_cut_at_the_first, an_escaped_text_reads_back, breaks_out, solid, unescaped,
};
use crate::vocabulary::Vocabulary;
use vstd::prelude::*;

verus! {

// ---------------------------------------------------------------------------
// Styles
// ---------------------------------------------------------------------------

/// The `i`th of `n` expressions that are added up from the left.
pub open spec fn nth_of_sum(sum: ExprV, n: nat, i: int) -> ExprV
    decreases n,
{
    if n <= 1 {
        sum
    } else if i == n - 1 {
        *sum.kind->Binary_right
    } else {
        nth_of_sum(*sum.kind->Binary_left, (n - 1) as nat, i)
    }
}

/// An expression adds up `n` expressions from the left.
pub open spec fn is_sum(sum: ExprV, n: nat) -> bool
    decreases n,
{
    n > 1 ==> (sum.kind matches KindV::Binary { op, left, right } && op == BinaryOp::Addition
        && is_sum(*left, (n - 1) as nat))
}

/// What a style is written behind: its name and a colon, and a semicolon before
/// all but the first.
pub open spec fn style_lead(name: Seq<char>, i: int) -> Seq<char> {
    if i == 0 {
        name + seq![':']
    } else {
        seq![';'] + name + seq![':']
    }
}

/// A call that renders one style.
pub open spec fn renders_style(call: ExprV, style: (Seq<char>, ExprV), i: int) -> bool {
    &&& calls_helper(call, "ssrStyleProperty"@, 2)
    &&& is_text(arg(call, 0), style_lead(style.0, i))
    &&& is_safe(arg(call, 1), true)
    &&& exists|ctx: SsrContextV| arg(call, 1) == (#[trigger] escaped_v(style.1, true, true, ctx)).0
}

/// Styles are rendered one by one and in order, each behind its name, with a
/// semicolon between two: cut at the semicolons, the text has one declaration
/// for each.
pub proof fn styles_are_rendered_in_order(
    styles: Seq<(Seq<char>, ExprV)>,
    n: nat,
    ctx: SsrContextV,
)
    requires
        0 < n <= styles.len(),
    ensures
        is_sum(style_chain_v(styles, n, ctx).0, n),
        forall|i: int|
            0 <= i < n ==> renders_style(
                #[trigger] nth_of_sum(style_chain_v(styles, n, ctx).0, n, i),
                styles[i],
                i,
            ),
    decreases n,
{
    reveal_strlit(":");
    reveal_strlit(";");
    let before = style_chain_v(styles, (n - 1) as nat, ctx);
    let (name, value) = styles[n - 1];
    an_escaped_expression_is_safe(value, true, true, before.1);
    let done = escaped_v(value, true, true, before.1);
    let sum = style_chain_v(styles, n, ctx).0;
    let last = nth_of_sum(sum, n, n - 1);
    assert(name + ":"@ =~= style_lead(name, 0));
    if n > 1 {
        assert(";"@ + name + ":"@ =~= style_lead(name, n - 1));
    }
    assert(renders_style(last, styles[n - 1], n - 1));
    if n > 1 {
        styles_are_rendered_in_order(styles, (n - 1) as nat, ctx);
        assert forall|i: int| 0 <= i < n implies renders_style(
            #[trigger] nth_of_sum(sum, n, i),
            styles[i],
            i,
        ) by {
            if i < n - 1 {
                assert(nth_of_sum(sum, n, i) == nth_of_sum(before.0, (n - 1) as nat, i));
            }
        }
    }
}

/// A property has this name and this value, wherever it was written.
pub open spec fn is_style(prop: PropV, style: (Seq<char>, ExprV)) -> bool {
    prop matches PropV::Named { key, value, .. } && (key == KeyV::Ident(style.0) || key
        == KeyV::Str(style.0)) && value.kind == style.1.kind
}

/// The styles of an object are its properties, in order.
pub proof fn styles_are_the_properties(props: Seq<PropV>)
    ensures
        styles_v(props) matches Some(styles) ==> styles.len() == props.len() && forall|i: int|
            0 <= i < props.len() ==> is_style(#[trigger] props[i], styles[i]),
    decreases props.len(),
{
    if props.len() > 0 {
        styles_are_the_properties(props.drop_last());
        if let Some(styles) = styles_v(props) {
            let before = styles_v(props.drop_last())->0;
            assert forall|i: int| 0 <= i < props.len() implies is_style(
                #[trigger] props[i],
                styles[i],
            ) by {
                if i < props.len() - 1 {
                    assert(props.drop_last()[i] == props[i]);
                    assert(styles[i] == before[i]);
                }
            }
        }
    }
}

/// The value of a style is rendered property by property where it is an object
/// with plain names, and by the helper for any value otherwise.
pub proof fn a_style_is_rendered(expr: ExprV, ctx: SsrContextV)
    ensures
        ({
            let out = style_value_v(expr, ctx).0;
            let styles = match peeled_v(expr).kind {
                KindV::Object(props) => styles_v(props),
                _ => None,
            };
            match styles {
                None => calls_helper(out, "ssrStyle"@, 1) && arg(out, 0) == expr,
                Some(styles) => if styles.len() == 0 {
                    is_text(out, seq![])
                } else {
                    is_sum(out, styles.len()) && forall|i: int|
                        0 <= i < styles.len() ==> renders_style(
                            #[trigger] nth_of_sum(out, styles.len(), i),
                            styles[i],
                            i,
                        )
                },
            }
        }),
{
    reveal(style_value_v);
    reveal_strlit("");
    match peeled_v(expr).kind {
        KindV::Object(props) => {
            if let Some(styles) = styles_v(props) {
                if styles.len() > 0 {
                    styles_are_rendered_in_order(
                        styles,
                        styles.len(),
                        ctx.with_helper("ssrStyleProperty"@),
                    );
                } else {
                    assert(""@ =~= seq![]);
                }
            }
        },
        _ => {},
    }
}

// ---------------------------------------------------------------------------
// Classes
// ---------------------------------------------------------------------------

/// A property turns a class of this name on.
pub open spec fn turns_on(prop: PropV, name: Seq<char>) -> bool {
    prop matches PropV::Named { key, value, computed, .. } && (key == KeyV::Ident(name) || key
        == KeyV::Str(name)) && !computed && peeled_v(value).kind == KindV::Bool(true)
}

/// The classes of an object are the names of the properties that are `true`,
/// each of them and no other.
pub proof fn classes_are_the_true_properties(props: Seq<PropV>)
    ensures
        true_keys_v(props) matches Some(keys) ==> {
            &&& forall|k: int|
                0 <= k < keys.len() ==> exists|i: int|
                    0 <= i < props.len() && turns_on(#[trigger] props[i], #[trigger] keys[k])
            &&& forall|i: int, name: Seq<char>|
                0 <= i < props.len() && #[trigger] turns_on(props[i], name) ==> keys.contains(name)
        },
    decreases props.len(),
{
    if props.len() > 0 {
        let front = props.drop_last();
        classes_are_the_true_properties(front);
        if let Some(keys) = true_keys_v(props) {
            let before = true_keys_v(front)->0;
            assert forall|k: int| 0 <= k < keys.len() implies exists|i: int|
                0 <= i < props.len() && turns_on(#[trigger] props[i], #[trigger] keys[k]) by {
                if k < before.len() {
                    assert(before[k] == keys[k]);
                    let i = choose|i: int|
                        0 <= i < front.len() && turns_on(#[trigger] front[i], before[k]);
                    assert(turns_on(props[i], keys[k]));
                } else {
                    assert(turns_on(props[props.len() - 1], keys[k]));
                }
            }
            assert forall|i: int, name: Seq<char>|
                0 <= i < props.len() && #[trigger] turns_on(
                    props[i],
                    name,
                ) implies keys.contains(name) by {
                if i < props.len() - 1 {
                    assert(front[i] == props[i]);
                    assert(turns_on(front[i], name));
                    let k = choose|k: int| 0 <= k < before.len() && before[k] == name;
                    assert(keys[k] == name);
                } else {
                    assert(keys[keys.len() - 1] == name);
                }
            }
        }
    }
}

/// The classes of two lists of properties are those of the first and then those
/// of the second.
pub proof fn classes_keep_their_order(a: Seq<PropV>, b: Seq<PropV>)
    ensures
        true_keys_v(a + b) is Some == (true_keys_v(a) is Some && true_keys_v(b) is Some),
        true_keys_v(a + b) is Some ==> true_keys_v(a + b)->0 == true_keys_v(a)->0 + true_keys_v(
            b,
        )->0,
    decreases b.len(),
{
    if b.len() == 0 {
        assert(a + b =~= a);
        if true_keys_v(a) is Some {
            assert(true_keys_v(a)->0 + true_keys_v(b)->0 =~= true_keys_v(a)->0);
        }
    } else {
        assert((a + b).drop_last() =~= a + b.drop_last());
        assert((a + b).last() == b.last());
        classes_keep_their_order(a, b.drop_last());
        if true_keys_v(a + b) is Some {
            assert(true_keys_v(a + b)->0 =~= true_keys_v(a)->0 + true_keys_v(b)->0);
        }
    }
}

// ---------------------------------------------------------------------------
// Attributes
// ---------------------------------------------------------------------------

/// A text is an attribute of this name and value: the name alone where the value
/// is empty, else the name and, in quotes, the value, escaped.
pub open spec fn is_attribute(text: Seq<char>, name: Seq<char>, value: Seq<char>) -> bool {
    if value.len() == 0 {
        text == seq![' '] + name
    } else {
        exists|shown: Seq<char>|
            {
                &&& text == seq![' '] + name + seq!['=', '"'] + shown + seq!['"']
                &&& #[trigger] unescaped(shown) == value
                &&& forall|i: int| 0 <= i < shown.len() ==> #[trigger] shown[i] != '"'
            }
    }
}

/// An attribute of a known value is written with its name and its value.
pub proof fn a_plain_attribute_is_written(name: Seq<char>, value: Seq<char>)
    ensures
        is_attribute(plain_attr_v(name, value), name, value),
{
    reveal_strlit(" ");
    reveal_strlit("=\"");
    reveal_strlit("\"");
    let shown = escape_html_v(value, true);
    an_escaped_text_reads_back(value, true);
    assert(" "@ =~= seq![' ']);
    assert("=\""@ =~= seq!['=', '"']);
    assert("\""@ =~= seq!['"']);
    if value.len() == 0 {
        assert(shown =~= seq![]);
    } else {
        if shown.len() == 0 {
            assert(unescaped(shown) =~= seq![]);
        }
        assert forall|i: int| 0 <= i < shown.len() implies #[trigger] shown[i] != '"' by {
            assert(!breaks_out(shown[i], true));
        }
        assert(unescaped(shown) == value);
    }
}

/// The prefixes that only say how an attribute is set.
pub open spec fn is_way(ns: Seq<char>) -> bool {
    ns == "class"@ || ns == "on"@ || ns == "style"@ || ns == "use"@ || ns == "prop"@
}

/// A key loses such a prefix and its colon, and nothing else.
pub proof fn a_prefix_is_stripped(key: Seq<char>)
    ensures
        forall|ns: Seq<char>, rest: Seq<char>|
            key == #[trigger] (ns + seq![':'] + rest) && !ns.contains(':') && is_way(ns)
                ==> stripped(key) == rest,
        stripped(key) != key ==> exists|ns: Seq<char>|
            #[trigger] is_way(ns) && key == ns + seq![':'] + stripped(key),
{
    a_text_is_cut_at_the_first(key, ':');
    assert forall|ns: Seq<char>, rest: Seq<char>|
        key == #[trigger] (ns + seq![':'] + rest) && !ns.contains(':') && is_way(
            ns,
        ) implies stripped(key) == rest by {
        let n = ns.len() as int;
        assert(key[n] == ':');
        assert forall|i: int| 0 <= i < n implies key[i] != ':' by {
            assert(ns[i] == key[i]);
            assert(ns.contains(ns[i]));
        }
        crate::text::first_index_unique(key, ':', n);
        assert(key.take(n) =~= ns);
        assert(key.skip(n + 1) =~= rest);
    }
    if stripped(key) != key {
        let ns = before_first(key, ':')->0;
        assert(is_way(ns));
    }
}

/// What stands for a value: the value itself, or the hole of a request that
/// computes it again each time.
pub open spec fn is_slot(
    shown: ExprV,
    value: ExprV,
    hoisted: bool,
    ctx: SsrContextV,
    done: SsrContextV,
    grouped: bool,
    post: bool,
    plain: bool,
) -> bool {
    if hoisted {
        &&& done.requests.len() > 0
        &&& shown.kind == KindV::Hole((done.requests.len() - 1) as usize)
        &&& done.requests.last() matches RequestV::Hoist {
            expr,
            grouped: g,
            post: p,
            plain: l,
        } && is_thunk(expr, value) && g == grouped && p == post && l == plain
    } else {
        shown == value
    }
}

/// The parts that a result has more than another.
pub open spec fn added(before: SsrResultV, after: SsrResultV) -> Seq<PartV> {
    after.parts.skip(before.parts.len() as int)
}

/// A result is another with parts added.
pub open spec fn extends(before: SsrResultV, after: SsrResultV, parts: Seq<PartV>) -> bool {
    &&& after.parts == before.parts + parts
    &&& after.exprs == before.exprs
    &&& after.span == before.span
    &&& after.spread_element == before.spread_element
}

/// The parts of a value that is held: where it is hoisted, the place of its
/// request stands before the rest.
pub open spec fn placed(hoisted: bool, slot: nat, rest: Seq<PartV>) -> Seq<PartV> {
    if hoisted {
        seq![PartV::Hoisted(slot as usize)] + rest
    } else {
        rest
    }
}

/// A style is written in quotes behind its name, and its value is rendered.
pub proof fn a_style_attribute(
    name: Seq<char>,
    value: ExprV,
    dynamic: bool,
    result: SsrResultV,
    ctx: SsrContextV,
)
    ensures
        ({
            let done = style_attr_v(name, value, dynamic, result, ctx);
            let style = style_value_v(value, ctx);
            exists|shown: ExprV|
                #[trigger] is_slot(shown, style.0, dynamic, ctx, done.1, true, false, false)
                    && extends(
                    result,
                    done.0,
                    seq![PartV::Static(seq![' '] + name + seq!['=', '"'])] + placed(
                        dynamic,
                        style.1.requests.len(),
                        seq![PartV::Piece(seq!['"']), PartV::Value(shown)],
                    ),
                )
        }),
{
    reveal(style_attr_v);
    reveal_strlit(" ");
    reveal_strlit("=\"");
    reveal_strlit("\"");
    let done = style_attr_v(name, value, dynamic, result, ctx);
    let style = style_value_v(value, ctx);
    let shown = done.0.parts.last()->Value_0;
    assert(" "@ + name + "=\""@ =~= seq![' '] + name + seq!['=', '"']);
    assert("\""@ =~= seq!['"']);
    assert(done.0.parts =~= result.parts + (seq![
        PartV::Static(seq![' '] + name + seq!['=', '"']),
    ] + placed(
        dynamic,
        style.1.requests.len(),
        seq![PartV::Piece(seq!['"']), PartV::Value(shown)],
    )));
    assert(is_slot(shown, style.0, dynamic, ctx, done.1, true, false, false));
}

/// A class is written in quotes behind `class`: the names that are known, or the
/// helper's call on the value.
pub proof fn a_class_attribute(
    value: ExprV,
    dynamic: bool,
    result: SsrResultV,
    ctx: SsrContextV,
)
    ensures
        ({
            let done = class_attr_v(value, dynamic, result, ctx);
            exists|shown: ExprV, class: ExprV, hoisted: bool|
                {
                    &&& #[trigger] is_slot(shown, class, hoisted, ctx, done.1, false, false, true)
                    &&& hoisted ==> dynamic
                    &&& match known_classes_v(value) {
                        Some(classes) => is_text(class, classes),
                        None => calls_helper(class, "ssrClassName"@, 1) && arg(class, 0) == value,
                    }
                    &&& extends(
                        result,
                        done.0,
                        seq![PartV::Static(" class=\""@)] + placed(
                            hoisted,
                            (done.1.requests.len() - 1) as nat,
                            seq![PartV::Piece(seq!['"']), PartV::Value(shown)],
                        ),
                    )
                }
        }),
{
    reveal(class_attr_v);
    reveal_strlit("\"");
    assert("\""@ =~= seq!['"']);
    let done = class_attr_v(value, dynamic, result, ctx);
    let (class, ctx1) = match known_classes_v(value) {
        Some(classes) => (crate::make::str_v(no_span(), classes), ctx),
        None => (
            crate::make::call_v(
                no_span(),
                crate::ir::helper_v(no_span(), "ssrClassName"@),
                seq![value],
            ),
            ctx.with_helper("ssrClassName"@),
        ),
    };
    let hoisted = dynamic && !crate::ssr_attribute::is_simple_member(value);
    let shown = done.0.parts.last()->Value_0;
    let slot = ctx1.requests.len();
    assert(is_slot(shown, class, hoisted, ctx, done.1, false, false, true));
    let want = seq![PartV::Static(" class=\""@)] + placed(
        hoisted,
        slot,
        seq![PartV::Piece(seq!['"']), PartV::Value(shown)],
    );
    assert(done.0.parts =~= result.parts + want);
    assert(extends(result, done.0, want));
}

/// Known classes are the names that are `true`, with blanks between them.
pub proof fn known_classes_are_joined(value: ExprV)
    ensures
        known_classes_v(value) matches Some(classes) ==> (
        peeled_v(value).kind matches KindV::Object(props) && true_keys_v(props) matches Some(keys)
            && classes == join_v(keys, seq![' ', ' '])),
{
    reveal_strlit("  ");
    assert("  "@ =~= seq![' ', ' ']);
}

/// The parts that show a value: it, and an empty piece behind it where one is
/// asked for.
pub open spec fn shown_parts(shown: ExprV, piece: bool) -> Seq<PartV> {
    if piece {
        seq![PartV::Value(shown), PartV::Piece(seq![])]
    } else {
        seq![PartV::Value(shown)]
    }
}

/// An attribute that a form control changes.
pub open spec fn is_changed_later(key: Seq<char>) -> bool {
    key == "value"@ || key == "checked"@
}

/// Any other attribute is rendered by the helper, from its name and its value,
/// escaped; the ones that a form control changes come last.
pub proof fn an_other_attribute(
    key: Seq<char>,
    name: Seq<char>,
    value: ExprV,
    dynamic: bool,
    result: SsrResultV,
    ctx: SsrContextV,
)
    ensures
        ({
            let done = other_attr_v(key, name, value, dynamic, result, ctx);
            let post = is_changed_later(key);
            let void = peeled_v(value).kind is Unary && peeled_v(value).kind->Unary_op
                == UnaryOp::Void;
            exists|shown: ExprV, call: ExprV|
                {
                    &&& #[trigger] is_slot(shown, call, dynamic, ctx, done.1, true, post, false)
                    &&& calls_helper(call, "ssrAttribute"@, 2)
                    &&& is_text(arg(call, 0), name)
                    &&& if void {
                        arg(call, 1) == value
                    } else {
                        is_safe(arg(call, 1), true) && bared(arg(call, 1), true) == value
                    }
                    &&& extends(
                        result,
                        done.0,
                        placed(
                            dynamic,
                            (done.1.requests.len() - 1) as nat,
                            shown_parts(shown, post || !dynamic),
                        ),
                    )
                }
        }),
{
    reveal(other_attr_v);
    reveal_strlit("");
    assert(""@ =~= seq![]);
    let done = other_attr_v(key, name, value, dynamic, result, ctx);
    let post = is_changed_later(key);
    let is_void = peeled_v(value).kind matches KindV::Unary { op, argument } && op
        == UnaryOp::Void;
    let (safe, ctx1) = if is_void {
        (value, ctx)
    } else {
        escaped_v(value, true, false, ctx)
    };
    an_escaped_expression_is_safe(value, true, false, ctx);
    escaping_is_undone(value, true, ctx);
    let call = crate::make::call_v(
        no_span(),
        crate::ir::helper_v(no_span(), "ssrAttribute"@),
        seq![crate::make::str_v(no_span(), name), safe],
    );
    let slot = ctx1.with_helper("ssrAttribute"@).requests.len();
    let shown = if dynamic {
        crate::ssr::hole_v(slot)
    } else {
        call
    };
    assert(is_slot(shown, call, dynamic, ctx, done.1, true, post, false));
    let want = placed(
        dynamic,
        slot,
        shown_parts(shown, post || !dynamic),
    );
    assert(done.0.parts =~= result.parts + want);
    assert(extends(result, done.0, want));
    assert(calls_helper(call, "ssrAttribute"@, 2));
    assert(is_text(arg(call, 0), name) && arg(call, 1) == safe);
    if dynamic {
        assert(done.1.requests.len() - 1 == slot);
    }
}

/// The name that a key is written as: in SVG itself, else as HTML writes it.
pub open spec fn shown_name(key: Seq<char>, is_svg: bool, vocabulary: Vocabulary) -> Seq<char> {
    if is_svg {
        key
    } else {
        vocabulary.written(key)
    }
}

/// The name that an attribute of the server has: without the prefix that says
/// how it is set, and outside of SVG as HTML writes it.
pub open spec fn server_name(key: Seq<char>, is_svg: bool, vocabulary: Vocabulary) -> Seq<char> {
    shown_name(stripped(key), is_svg, vocabulary)
}

/// A boolean is shown by the name alone, or not at all; a known text by the name
/// and the text.
pub proof fn a_known_attribute(
    key: Seq<char>,
    expr: ExprV,
    span: Span,
    is_svg: bool,
    result: SsrResultV,
    ctx: SsrContextV,
    options: TransformOptions,
    vocabulary: Vocabulary,
)
    ensures
        ({
            let done = expr_attr_v(key, expr, span, is_svg, result, ctx, options, vocabulary);
            let name = server_name(key, is_svg, vocabulary);
            &&& peeled_v(expr).kind == KindV::Bool(false) ==> done == (result, ctx)
            &&& peeled_v(expr).kind == KindV::Bool(true) ==> extends(
                result,
                done.0,
                seq![PartV::Static(seq![' '] + name)],
            ) && done.1 == ctx
            &&& !(peeled_v(expr).kind is Bool) && literal_text_v(expr) is Some ==> {
                &&& done.0.parts.len() == result.parts.len() + 1
                &&& done.0.parts.last() matches PartV::Static(text) && is_attribute(
                    text,
                    name,
                    literal_text_v(expr)->0,
                )
                &&& extends(result, done.0, seq![done.0.parts.last()])
                &&& done.1 == ctx
            }
        }),
{
    reveal(expr_attr_v);
    reveal_strlit(" ");
    assert(" "@ =~= seq![' ']);
    let done = expr_attr_v(key, expr, span, is_svg, result, ctx, options, vocabulary);
    let name = server_name(key, is_svg, vocabulary);
    if peeled_v(expr).kind is Bool {
        if peeled_v(expr).kind == KindV::Bool(true) {
            assert(done.0.parts =~= result.parts + seq![PartV::Static(seq![' '] + name)]);
        }
    } else if let Some(text) = literal_text_v(expr) {
        a_plain_attribute_is_written(name, text);
        assert(done.0.parts =~= result.parts + seq![done.0.parts.last()]);
    }
}

/// A style and a class have their own helpers; any other attribute goes by its
/// own name.  A value that is marked as static, or that does not change, is not
/// computed again.
pub proof fn a_computed_attribute(
    key: Seq<char>,
    expr: ExprV,
    span: Span,
    is_svg: bool,
    result: SsrResultV,
    ctx: SsrContextV,
    options: TransformOptions,
    vocabulary: Vocabulary,
)
    requires
        !(peeled_v(expr).kind is Bool),
        literal_text_v(expr) is None,
    ensures
        ({
            let done = expr_attr_v(key, expr, span, is_svg, result, ctx, options, vocabulary);
            let name = server_name(key, is_svg, vocabulary);
            let marked = static_marker(ctx.source, span, options.static_marker@);
            let dynamic = !marked && expr.facts.dynamic;
            let value = if marked {
                ExprV { span: no_span(), ..expr }
            } else {
                expr
            };
            &&& key == "style"@ ==> done == style_attr_v(name, value, dynamic, result, ctx)
            &&& key == "class"@ ==> done == class_attr_v(value, dynamic, result, ctx)
            &&& key != "style"@ && key != "class"@ ==> done == other_attr_v(
                key,
                name,
                value,
                dynamic,
                result,
                ctx,
            )
        }),
{
    reveal(expr_attr_v);
    reveal_strlit("style");
    reveal_strlit("class");
    assert("class"@[0] == 'c' && "style"@[0] == 's');
}

/// Taking a blank behind a character away loses no other character.
pub proof fn replacing_is_no_loss(text: Seq<char>, a: char)
    ensures
        solid(replace_v(text, seq![a, ' '], seq![a])) == solid(text),
    decreases text.len(),
{
    let pair = seq![a, ' '];
    if text.len() >= 2 {
        if text.take(2) == pair {
            let rest = text.skip(2);
            replacing_is_no_loss(rest, a);
            assert(pair[0] == a && pair[1] == ' ');
            assert(text =~= seq![a] + (seq![' '] + rest));
            crate::text_laws::solid_adds(seq![a], seq![' '] + rest);
            crate::text_laws::solid_adds(seq![' '], rest);
            crate::text_laws::solid_adds(seq![a], replace_v(rest, pair, seq![a]));
            crate::text_laws::solid_one(' ');
            assert(solid(seq![' '] + rest) =~= solid(rest));
        } else {
            replacing_is_no_loss(text.skip(1), a);
            assert(text =~= seq![text[0]] + text.skip(1));
            crate::text_laws::solid_adds(seq![text[0]], text.skip(1));
            crate::text_laws::solid_adds(seq![text[0]], replace_v(text.skip(1), pair, seq![a]));
        }
    }
}

/// A text that was given for a style or a class is shown with less white space;
/// no other character is lost, and any other text is shown as it is.
pub proof fn a_given_text_is_kept(key: Seq<char>, value: Seq<char>)
    ensures
        solid(string_value_v(key, value)) == solid(value),
        key != "style"@ && key != "class"@ ==> string_value_v(key, value) == value,
{
    crate::text_laws::trimming_loses_nothing(value);
    let trimmed = trim_whitespace_v(value);
    replacing_is_no_loss(trimmed, ';');
    replacing_is_no_loss(replace_v(trimmed, seq![';', ' '], seq![';']), ':');
}

/// A text is an attribute of this name and of a value that has the same
/// characters, but for white space.
pub open spec fn shows(text: Seq<char>, name: Seq<char>, value: Seq<char>) -> bool {
    exists|shown: Seq<char>|
        #[trigger] is_attribute(text, name, shown) && solid(shown) == solid(value)
}

/// What only the browser uses is left out; a given text is written with its
/// name, and an attribute without a value by its name alone.
pub proof fn a_given_attribute(
    attr: JsxAttribute,
    is_svg: bool,
    result: SsrResultV,
    ctx: SsrContextV,
    options: TransformOptions,
    vocabulary: Vocabulary,
)
    ensures
        ({
            let done = attr_v(attr, is_svg, result, ctx, options, vocabulary);
            let key = attr.key@;
            let name = shown_name(key, is_svg, vocabulary);
            let client = key == "ref"@ || starts_with(key, "use:"@) || starts_with(key, "prop:"@)
                || vocabulary.is_child_property(key);
            &&& client ==> done == (result, ctx)
            &&& !client ==> match attr.value {
                JsxValue::Str { value, .. } => {
                    &&& done.1 == ctx
                    &&& done.0.parts.len() > 0
                    &&& extends(result, done.0, seq![done.0.parts.last()])
                    &&& done.0.parts.last() is Static
                    &&& shows(done.0.parts.last()->Static_0, name, value@)
                },
                JsxValue::Absent => extends(
                    result,
                    done.0,
                    seq![PartV::Static(seq![' '] + name)],
                ) && done.1 == ctx,
                JsxValue::Container { span, expr: Some(expr), .. } => if starts_with(key, "on"@) {
                    done == (result, ctx)
                } else {
                    done == expr_attr_v(
                        key,
                        expr@,
                        span,
                        is_svg,
                        result,
                        ctx,
                        options,
                        vocabulary,
                    )
                },
                _ => done == (result, ctx),
            }
        }),
{
    reveal(attr_v);
    reveal_strlit(" ");
    assert(" "@ =~= seq![' ']);
    let done = attr_v(attr, is_svg, result, ctx, options, vocabulary);
    let key = attr.key@;
    let name = shown_name(key, is_svg, vocabulary);
    match attr.value {
        JsxValue::Str { value, .. } => {
            let shown = string_value_v(key, value@);
            a_given_text_is_kept(key, value@);
            a_plain_attribute_is_written(name, shown);
            assert(is_attribute(plain_attr_v(name, shown), name, shown));
            let one = result.with_static(plain_attr_v(name, shown));
            assert(one.parts =~= result.parts + seq![one.parts.last()]);
            assert(extends(result, one, seq![one.parts.last()]));
            let text = plain_attr_v(name, shown);
            assert(one.parts.last() == PartV::Static(text));
            assert(shows(text, name, value@));
            assert(done == (result, ctx) || done == (one, ctx));
        },
        JsxValue::Absent => {
            let one = result.with_static(" "@ + name);
            assert(one.parts =~= result.parts + seq![PartV::Static(seq![' '] + name)]);
        },
        _ => {},
    }
}

} // verus!
