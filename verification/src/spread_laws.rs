//! What is spread over an element, and in which order.

use crate::ast::{no_span, Expr, ExprV, JsxAttr, JsxAttribute, JsxValue, KeyV, KindV, LogicalOp, PropV, Span};
use crate::attribute::source_v;
use crate::attributes::container_expr;
use crate::handler_laws::{a_variable_is_itself, is_variable};
use crate::ir::{ContextV, HelperSource};
use crate::options::TransformOptions;
use crate::shape::{
    arg, callee, calls_helper, gets_value, holds_value, is_call, is_flag, is_name, is_text,
};
use crate::spread::{
    attr_prop_v, class_part_v, class_parts_v, class_pieces_v, is_dynamic_prop, merged_class_v,
    spread_arg_v, spread_call_v, spread_props_v, spreads, spreads_v, static_classes_v,
    static_prop_value, ClassPartV, MergedClassV, SpreadsV,
};
use crate::ssr_element::{chunks_v, props_v, spread_argument_v};
use crate::ssr::SsrContextV;
use crate::text::join_v;
use crate::text_laws::{solid, solid_adds, solid_one};
use crate::vocabulary::Vocabulary;
use vstd::prelude::*;

verus! {

// ---------------------------------------------------------------------------
// Order
// ---------------------------------------------------------------------------

/// One thing that is given to an element: a property, or all those of a value.
pub ghost enum Given {
    Prop(PropV),
    All(ExprV),
}

/// What an argument gives: its properties where it is an object, else itself.
pub open spec fn given_by(argument: ExprV) -> Seq<Given> {
    match argument.kind {
        KindV::Object(props) => props.map_values(|p: PropV| Given::Prop(p)),
        _ => seq![Given::All(argument)],
    }
}

/// What some arguments give, in order.
pub open spec fn given_by_all(arguments: Seq<ExprV>) -> Seq<Given>
    decreases arguments.len(),
{
    if arguments.len() == 0 {
        seq![]
    } else {
        given_by_all(arguments.drop_last()) + given_by(arguments.last())
    }
}

/// What one more argument gives comes behind the rest.
pub proof fn given_by_more(arguments: Seq<ExprV>, argument: ExprV)
    ensures
        given_by_all(arguments.push(argument)) == given_by_all(arguments) + given_by(argument),
{
    assert(arguments.push(argument).drop_last() =~= arguments);
}

/// What the attributes of an element in the browser give, in the order in which
/// they were written.
pub open spec fn written(attrs: Seq<JsxAttr>, source: Seq<char>, marker: Seq<char>) -> Seq<Given>
    decreases attrs.len(),
{
    if attrs.len() == 0 {
        seq![]
    } else {
        let before = written(attrs.drop_last(), source, marker);
        match attrs.last() {
            JsxAttr::Spread { span, argument } => before + given_by(
                spread_arg_v(
                    span,
                    *argument,
                    crate::marker::static_marker(source, span, marker),
                ),
            ),
            JsxAttr::Named(attr) => if spreads(attr.key@, true) {
                before.push(Given::Prop(attr_prop_v(attr, source, marker)))
            } else {
                before
            },
        }
    }
}

/// The attributes of an element in the browser are merged in the order in which
/// they were written.
pub proof fn spreads_keep_their_order(attrs: Seq<JsxAttr>, source: Seq<char>, marker: Seq<char>)
    ensures
        ({
            let all = spreads_v(attrs, source, marker);
            &&& given_by_all(all.args) + all.props.map_values(|p: PropV| Given::Prop(p)) == written(
                attrs,
                source,
                marker,
            )
            &&& given_by_all(all.flushed().args) == written(attrs, source, marker)
            &&& all.flushed().props.len() == 0
        }),
    decreases attrs.len(),
{
    let all = spreads_v(attrs, source, marker);
    let prop = |p: PropV| Given::Prop(p);
    if attrs.len() == 0 {
        assert(given_by_all(all.args) + all.props.map_values(prop) =~= seq![]);
    } else {
        spreads_keep_their_order(attrs.drop_last(), source, marker);
        let head = spreads_v(attrs.drop_last(), source, marker);
        match attrs.last() {
            JsxAttr::Spread { span, argument } => {
                given_by_more(head.flushed().args, all.args.last());
                assert(all.args =~= head.flushed().args.push(all.args.last()));
                assert(given_by_all(all.args) + all.props.map_values(prop) =~= written(
                    attrs,
                    source,
                    marker,
                ));
            },
            JsxAttr::Named(attr) => {
                if spreads(attr.key@, true) {
                    assert(given_by_all(all.args) + all.props.map_values(prop) =~= written(
                        attrs,
                        source,
                        marker,
                    ));
                }
            },
        }
    }
    if all.props.len() > 0 {
        let object = crate::make::object_v(no_span(), all.props);
        given_by_more(all.args, object);
        assert(all.flushed().args =~= all.args.push(object));
    } else {
        assert(all.props.map_values(prop) =~= seq![]);
        assert(given_by_all(all.args) + all.props.map_values(prop) =~= given_by_all(all.args));
    }
}

/// What the attributes of an element on the server give, in the order in which
/// they were written.
pub open spec fn written_on_the_server(
    attrs: Seq<JsxAttr>,
    has_children: bool,
    is_svg: bool,
    source: Seq<char>,
    options: TransformOptions,
    vocabulary: Vocabulary,
) -> Seq<Given>
    decreases attrs.len(),
{
    if attrs.len() == 0 {
        seq![]
    } else {
        let before = written_on_the_server(
            attrs.drop_last(),
            has_children,
            is_svg,
            source,
            options,
            vocabulary,
        );
        match attrs.last() {
            JsxAttr::Spread { span, argument } => before + given_by(spread_argument_v(*argument)),
            JsxAttr::Named(attr) => match crate::ssr_element::attr_prop_v(
                attr,
                has_children,
                is_svg,
                source,
                options,
                vocabulary,
            ) {
                Some(prop) => before.push(Given::Prop(prop)),
                None => before,
            },
        }
    }
}

proof fn chunks_keep_their_order(
    attrs: Seq<JsxAttr>,
    has_children: bool,
    is_svg: bool,
    source: Seq<char>,
    options: TransformOptions,
    vocabulary: Vocabulary,
)
    ensures
        ({
            let all = chunks_v(attrs, has_children, is_svg, source, options, vocabulary);
            let want = written_on_the_server(
                attrs,
                has_children,
                is_svg,
                source,
                options,
                vocabulary,
            );
            &&& given_by_all(all.chunks) + all.running.map_values(|p: PropV| Given::Prop(p)) == want
            &&& given_by_all(all.flushed().chunks) == want
            &&& all.flushed().running.len() == 0
        }),
    decreases attrs.len(),
{
    let all = chunks_v(attrs, has_children, is_svg, source, options, vocabulary);
    let prop = |p: PropV| Given::Prop(p);
    let want = written_on_the_server(attrs, has_children, is_svg, source, options, vocabulary);
    if attrs.len() == 0 {
        assert(given_by_all(all.chunks) + all.running.map_values(prop) =~= want);
    } else {
        chunks_keep_their_order(
            attrs.drop_last(),
            has_children,
            is_svg,
            source,
            options,
            vocabulary,
        );
        let head = chunks_v(
            attrs.drop_last(),
            has_children,
            is_svg,
            source,
            options,
            vocabulary,
        );
        match attrs.last() {
            JsxAttr::Spread { span, argument } => {
                given_by_more(head.flushed().chunks, all.chunks.last());
                assert(all.chunks =~= head.flushed().chunks.push(all.chunks.last()));
                assert(given_by_all(all.chunks) + all.running.map_values(prop) =~= want);
            },
            JsxAttr::Named(attr) => {
                assert(given_by_all(all.chunks) + all.running.map_values(prop) =~= want);
            },
        }
    }
    if all.running.len() > 0 {
        let object = crate::make::object_v(no_span(), all.running);
        given_by_more(all.chunks, object);
        assert(all.flushed().chunks =~= all.chunks.push(object));
    } else {
        assert(all.running.map_values(prop) =~= seq![]);
        assert(given_by_all(all.chunks) + all.running.map_values(prop) =~= given_by_all(
            all.chunks,
        ));
    }
}

/// What an expression gives: an object its properties, a merge what its arguments
/// give, and any other itself.
pub open spec fn gives(props: ExprV, want: Seq<Given>) -> bool {
    ||| given_by(props) == want
    ||| exists|n: nat|
        #[trigger] calls_helper(props, "mergeProps"@, n) && given_by_all(
            Seq::new(n, |i: int| arg(props, i)),
        ) == want
}

/// The properties of an element on the server are merged in the order in which
/// they were written.
pub proof fn properties_keep_their_order(
    attrs: Seq<JsxAttr>,
    has_children: bool,
    is_svg: bool,
    ctx: SsrContextV,
    options: TransformOptions,
    vocabulary: Vocabulary,
)
    ensures
        gives(
            props_v(attrs, has_children, is_svg, ctx, options, vocabulary).0,
            written_on_the_server(attrs, has_children, is_svg, ctx.source, options, vocabulary),
        ),
{
    reveal(props_v);
    chunks_keep_their_order(attrs, has_children, is_svg, ctx.source, options, vocabulary);
    let all = chunks_v(
        attrs,
        has_children,
        is_svg,
        ctx.source,
        options,
        vocabulary,
    ).flushed().chunks;
    let out = props_v(attrs, has_children, is_svg, ctx, options, vocabulary).0;
    let want = written_on_the_server(
        attrs,
        has_children,
        is_svg,
        ctx.source,
        options,
        vocabulary,
    );
    if all.len() == 0 {
        assert(given_by(out) =~= seq![]);
    } else if all.len() == 1 {
        assert(all =~= seq![].push(all[0]));
        given_by_more(seq![], all[0]);
        assert(given_by_all(all) =~= given_by(all[0]));
    } else {
        assert(calls_helper(out, "mergeProps"@, all.len()));
        assert(Seq::new(all.len(), |i: int| arg(out, i)) =~= all);
    }
}

// ---------------------------------------------------------------------------
// In the browser
// ---------------------------------------------------------------------------

/// A property has this name: as an identifier, or as a string.
pub open spec fn has_name(prop: PropV, name: Seq<char>) -> bool {
    prop matches PropV::Named { key, method, .. } && !method && (key == KeyV::Ident(name) || key
        == KeyV::Str(name))
}

/// An attribute that changes is read again through a getter of its name; any
/// other is a property of its name and value.
pub proof fn an_attribute_is_a_property(attr: JsxAttribute, source: Seq<char>, marker: Seq<char>)
    ensures
        ({
            let prop = attr_prop_v(attr, source, marker);
            &&& has_name(prop, attr.key@)
            &&& is_dynamic_prop(attr, source, marker) ==> container_expr(attr.value) is Some
                && gets_value(prop, attr.key@, (container_expr(attr.value)->0)@)
            &&& !is_dynamic_prop(attr, source, marker) ==> holds_value(
                prop,
                attr.key@,
                static_prop_value(attr, source, marker),
            )
            &&& !is_dynamic_prop(attr, source, marker) ==> (
            attr.value matches JsxValue::Str { value, .. } ==> is_text(
                static_prop_value(attr, source, marker),
                value@,
            ))
            &&& attr.value is Absent ==> is_flag(static_prop_value(attr, source, marker), true)
        }),
{
}

/// A ref is not spread, and neither is a key with a prefix that says how it is
/// set.
pub proof fn some_keys_are_not_spread(key: Seq<char>, ns: Seq<char>, rest: Seq<char>)
    ensures
        !spreads("ref"@, true),
        !key.contains(':') && key != "ref"@ ==> spreads(key, true),
        key == ns + seq![':'] + rest && !ns.contains(':') && (ns == "class"@ || ns == "style"@
            || ns == "use"@ || ns == "prop"@ || ns == "attr"@ || ns == "bool"@) ==> !spreads(
            key,
            true,
        ),
{
    crate::text_laws::a_text_is_cut_at_the_first(key, ':');
    if key == ns + seq![':'] + rest && !ns.contains(':') {
        let n = ns.len() as int;
        assert(key[n] == ':');
        assert forall|i: int| 0 <= i < n implies key[i] != ':' by {
            assert(ns[i] == key[i]);
            assert(ns.contains(ns[i]));
        }
        crate::text::first_index_unique(key, ':', n);
        assert(key.take(n) =~= ns);
        assert(key.contains(':'));
    }
}

/// Everything that is spread is merged, unless it is one value that does not
/// change.
pub proof fn spreads_are_merged(all: SpreadsV, ctx: ContextV)
    ensures
        ({
            let out = spread_props_v(all, ctx).1;
            if all.args.len() == 1 && !all.dynamic {
                out == all.args[0]
            } else {
                calls_helper(out, "mergeProps"@, all.args.len()) && forall|i: int|
                    0 <= i < all.args.len() ==> arg(out, i) == #[trigger] all.args[i]
            }
        }),
{
}

/// An element is spread over once: the helper is given the element, all that is
/// spread, and whether it has children.
pub proof fn an_element_is_spread_over(
    attrs: Seq<JsxAttr>,
    elem: Seq<char>,
    has_children: bool,
    ctx: ContextV,
    options: TransformOptions,
)
    requires
        is_variable(elem),
    ensures
        ({
            let all = spreads_v(attrs, ctx.source, options.static_marker@).flushed();
            let out = spread_call_v(attrs, elem, has_children, ctx, options).1;
            &&& all.args.len() == 0 ==> out is None
            &&& all.args.len() > 0 ==> out is Some && {
                let call = out->0;
                let props = spread_props_v(all, ctx);
                &&& is_call(call, 3)
                &&& is_name(callee(call), props.0.import("spread"@, HelperSource::Dom).1)
                &&& is_name(arg(call, 0), elem)
                &&& arg(call, 1) == props.1
                &&& is_flag(arg(call, 2), has_children)
            }
        }),
{
    a_variable_is_itself(elem);
}

/// A value that is spread is the value, or what gives it where it changes; one
/// that is marked as static is copied.
pub proof fn a_spread_value_is_the_value(span: Span, argument: Expr)
    ensures
        argument.facts.dynamic ==> spread_arg_v(span, argument, false) == source_v(argument),
        !argument.facts.dynamic ==> spread_arg_v(span, argument, false) == argument@,
        spread_arg_v(span, argument, true).kind matches KindV::Object(props) && props.len() == 1
            && props[0] is Spread,
{
}

// ---------------------------------------------------------------------------
// Classes
// ---------------------------------------------------------------------------

/// The classes of two lists of attributes are those of the first and then those
/// of the second.
pub proof fn class_parts_keep_their_order(a: Seq<JsxAttribute>, b: Seq<JsxAttribute>)
    ensures
        class_parts_v(a + b) == class_parts_v(a) + class_parts_v(b),
    decreases b.len(),
{
    if b.len() == 0 {
        assert(a + b =~= a);
        assert(class_parts_v(a) + class_parts_v(b) =~= class_parts_v(a));
    } else {
        assert((a + b).drop_last() =~= a + b.drop_last());
        assert((a + b).last() == b.last());
        class_parts_keep_their_order(a, b.drop_last());
        assert(class_parts_v(a + b) =~= class_parts_v(a) + class_parts_v(b));
    }
}

/// The known classes of a list are those that are not empty, in order.
pub proof fn known_classes_keep_their_order(a: Seq<ClassPartV>, b: Seq<ClassPartV>)
    ensures
        static_classes_v(a + b) == static_classes_v(a) + static_classes_v(b),
        forall|k: int|
            0 <= k < static_classes_v(a).len() ==> (#[trigger] static_classes_v(a)[k]).len() > 0
                && a.contains(ClassPartV::Static(static_classes_v(a)[k])),
    decreases a.len() + b.len(),
{
    if b.len() == 0 {
        assert(a + b =~= a);
        assert(static_classes_v(a) + static_classes_v(b) =~= static_classes_v(a));
    } else {
        assert((a + b).drop_last() =~= a + b.drop_last());
        assert((a + b).last() == b.last());
        known_classes_keep_their_order(a, b.drop_last());
        assert(static_classes_v(a + b) =~= static_classes_v(a) + static_classes_v(b));
    }
    if a.len() > 0 {
        let front = a.drop_last();
        known_classes_keep_their_order(front, seq![]);
        assert forall|k: int| 0 <= k < static_classes_v(a).len() implies (
        #[trigger] static_classes_v(a)[k]).len() > 0 && a.contains(
            ClassPartV::Static(static_classes_v(a)[k]),
        ) by {
            let part = ClassPartV::Static(static_classes_v(a)[k]);
            if k < static_classes_v(front).len() {
                assert(static_classes_v(front)[k] == static_classes_v(a)[k]);
                let i = choose|i: int| 0 <= i < front.len() && front[i] == part;
                assert(a[i] == part);
            } else {
                assert(a[a.len() - 1] == part);
            }
        }
    }
}

/// The values of the parts that are computed, in order.
pub open spec fn computed(parts: Seq<ClassPartV>, n: nat) -> Seq<ExprV>
    decreases n,
{
    if n == 0 || n > parts.len() {
        seq![]
    } else {
        match parts[n - 1] {
            ClassPartV::Dynamic(expr) => computed(parts, (n - 1) as nat).push(expr),
            ClassPartV::Static(_) => computed(parts, (n - 1) as nat),
        }
    }
}

/// Between the pieces of a class stand the computed values, each with nothing in
/// its place where it does not hold; before each, and behind each that is not the
/// last, there is a blank.
pub proof fn classes_are_apart(parts: Seq<ClassPartV>, n: nat)
    requires
        n <= parts.len(),
    ensures
        ({
            let (pieces, values) = class_pieces_v(parts, n);
            let want = computed(parts, n);
            &&& pieces.len() == values.len() + 1
            &&& values.len() == want.len()
            &&& forall|i: int|
                0 <= i < values.len() ==> shows_or_nothing(#[trigger] values[i], want[i])
            &&& n < parts.len() && n > 0 ==> pieces.last().len() == 0 && values.len() == 0
                || pieces.last().len() > 0 && pieces.last().last() == ' '
            &&& forall|k: int|
                0 <= k < pieces.len() - 1 ==> (k == 0 && (#[trigger] pieces[k]).len() == 0) || (
                pieces[k].len() > 0 && pieces[k].last() == ' ')
        }),
    decreases n,
{
    if n > 0 {
        classes_are_apart(parts, (n - 1) as nat);
        let head = class_pieces_v(parts, (n - 1) as nat);
        let (pieces, values) = class_pieces_v(parts, n);
        match parts[n - 1] {
            ClassPartV::Static(text) => {
                assert forall|k: int| 0 <= k < pieces.len() - 1 implies (k == 0 && (
                #[trigger] pieces[k]).len() == 0) || (pieces[k].len() > 0 && pieces[k].last()
                    == ' ') by {
                    assert(pieces[k] == head.0[k]);
                }
                if n < parts.len() && text.len() > 0 {
                    assert(pieces.last().last() == ' ');
                }
            },
            ClassPartV::Dynamic(expr) => {
                assert forall|k: int| 0 <= k < pieces.len() - 1 implies (k == 0 && (
                #[trigger] pieces[k]).len() == 0) || (pieces[k].len() > 0 && pieces[k].last()
                    == ' ') by {
                    assert(pieces[k] == head.0[k]);
                }
            },
        }
    }
}

/// An expression is a value, or nothing where it does not hold.
pub open spec fn shows_or_nothing(shown: ExprV, value: ExprV) -> bool {
    shown.kind matches KindV::Logical { op, left, right } && op == LogicalOp::Or && *left == value
        && is_text(*right, ""@)
}

/// Several classes are merged into one text where all are known, joined by
/// blanks, and else into a template that holds the computed ones.
pub proof fn classes_are_merged(attrs: Seq<JsxAttribute>)
    ensures
        ({
            let parts = class_parts_v(attrs);
            match merged_class_v(attrs) {
                None => parts.len() == 0,
                Some(MergedClassV::Static(text)) => text == join_v(
                    static_classes_v(parts),
                    seq![' '],
                ) && forall|i: int| 0 <= i < parts.len() ==> (#[trigger] parts[i]) is Static,
                Some(MergedClassV::Dynamic(expr)) => {
                    &&& expr.kind matches KindV::Template { quasis, exprs } && quasis.len()
                        == exprs.len() + 1 && exprs.len() == computed(parts, parts.len()).len()
                        && forall|i: int|
                        0 <= i < exprs.len() ==> shows_or_nothing(
                            #[trigger] exprs[i],
                            computed(parts, parts.len())[i],
                        )
                },
            }
        }),
{
    reveal_strlit(" ");
    assert(" "@ =~= seq![' ']);
    let parts = class_parts_v(attrs);
    classes_are_apart(parts, parts.len());
    if parts.len() > 0 && !crate::spread::has_dynamic_part(parts) {
        assert forall|i: int| 0 <= i < parts.len() implies (#[trigger] parts[i]) is Static by {}
    }
}

/// The class of an attribute is its text, or its value where that is not known;
/// one of no value has none.
pub proof fn a_class_part_is_the_value(attr: JsxAttribute)
    ensures
        attr.value matches JsxValue::Str { value, .. } ==> class_part_v(attr) == Some(
            ClassPartV::Static(value@),
        ),
        container_expr(attr.value) matches Some(expr) ==> (
        expr.kind matches crate::ast::Kind::Str(text) ==> class_part_v(attr) == Some(
            ClassPartV::Static(text@),
        )),
        container_expr(attr.value) matches Some(expr) ==> (expr.kind is Null ==> class_part_v(attr)
            is None),
        container_expr(attr.value) matches Some(expr) ==> (expr.kind is Call || expr.kind is Member
            || expr.kind is Conditional ==> class_part_v(attr) == Some(
            ClassPartV::Dynamic(expr@),
        )),
        attr.value is Absent ==> class_part_v(attr) is None,
{
}

/// The characters of some texts that are no spaces.
pub open spec fn solid_of_all(texts: Seq<Seq<char>>) -> Seq<char>
    decreases texts.len(),
{
    if texts.len() == 0 {
        seq![]
    } else {
        solid_of_all(texts.drop_last()) + solid(texts.last())
    }
}

/// The characters of the known parts that are no spaces.
pub open spec fn solid_of_parts(parts: Seq<ClassPartV>, n: nat) -> Seq<char>
    decreases n,
{
    if n == 0 || n > parts.len() {
        seq![]
    } else {
        match parts[n - 1] {
            ClassPartV::Static(text) => solid_of_parts(parts, (n - 1) as nat) + solid(text),
            ClassPartV::Dynamic(_) => solid_of_parts(parts, (n - 1) as nat),
        }
    }
}

/// The pieces of a class hold the known classes, and but for spaces nothing else.
pub proof fn pieces_hold_the_known_classes(parts: Seq<ClassPartV>, n: nat)
    requires
        n <= parts.len(),
    ensures
        solid_of_all(class_pieces_v(parts, n).0) == solid_of_parts(parts, n),
        class_pieces_v(parts, n).0.len() > 0,
    decreases n,
{
    solid_one(' ');
    let (pieces, values) = class_pieces_v(parts, n);
    if n == 0 {
        assert(pieces.drop_last() =~= seq![]);
        assert(solid_of_all(pieces.drop_last()) == Seq::<char>::empty());
        assert(pieces.last() =~= Seq::<char>::empty());
        assert(solid(pieces.last()) == Seq::<char>::empty());
        assert(solid_of_all(pieces) =~= Seq::<char>::empty());
    } else {
        pieces_hold_the_known_classes(parts, (n - 1) as nat);
        let head = class_pieces_v(parts, (n - 1) as nat).0;
        match parts[n - 1] {
            ClassPartV::Static(text) => {
                assert(pieces.drop_last() =~= head.drop_last());
                let piece = head.last();
                let lead = if piece.len() > 0 && piece.last() != ' ' {
                    piece.push(' ')
                } else {
                    piece
                };
                assert(piece.push(' ') =~= piece + seq![' ']);
                solid_adds(piece, seq![' ']);
                assert(solid(lead) =~= solid(piece));
                let tail = if n == parts.len() {
                    Seq::<char>::empty()
                } else {
                    seq![' ']
                };
                assert(solid(Seq::<char>::empty()) == Seq::<char>::empty());
                solid_adds(lead, text);
                solid_adds(lead + text, tail);
                if text.len() == 0 {
                    assert(solid(text) =~= Seq::<char>::empty());
                    assert(solid(pieces.last()) =~= solid(piece) + solid(text));
                } else {
                    assert(pieces.last() == lead + text + tail);
                    assert(solid(pieces.last()) =~= solid(piece) + solid(text));
                }
                assert(solid_of_all(pieces) =~= solid_of_all(head) + solid(text));
            },
            ClassPartV::Dynamic(expr) => {
                assert(pieces.drop_last() =~= head);
                assert(solid(Seq::<char>::empty()) == Seq::<char>::empty());
                assert(solid(pieces.last()) =~= Seq::<char>::empty());
                assert(solid_of_all(pieces) =~= solid_of_all(head));
            },
        }
    }
}

} // verus!
