//! What an element passes on: its attributes in their order, and what is closed
//! inside it.

use crate::all_attributes::{
    attributes_v, children_expr, class_bindings, classes_up, group_of, has_spread, in_group, left_v,
    named, ordered_v, start_v, synthetic_v, AttrGroup, Progress,
};
use crate::ast::{Expr, ExprV, JsxAttr, JsxAttribute, Kind, KindV, Span};
use crate::info::InfoV;
use crate::ir::{BindingV, ContextV, ResultV};
use crate::marker::{char_index, span_text, text_bytes};
use crate::options::TransformOptions;
use crate::peel::{
    is_function_handler, is_resolvable, is_writable, literal_text_v, peeled, peeled_v, plain_call,
};
use crate::text::{starts_with, texts};
use crate::vocabulary::{entry, prop_alias, PropAlias, Vocabulary};
use vstd::prelude::*;

verus! {

// ---------------------------------------------------------------------------
// Attributes
// ---------------------------------------------------------------------------

/// The named attributes of two lists are those of the first and then those of the
/// second.
pub proof fn named_attributes_keep_their_order(a: Seq<JsxAttr>, b: Seq<JsxAttr>)
    ensures
        named(a + b) == named(a) + named(b),
    decreases b.len(),
{
    reveal_with_fuel(named, 1);
    reveal(named);
    if b.len() == 0 {
        assert(a + b =~= a);
        assert(named(a) + named(b) =~= named(a));
    } else {
        assert((a + b).drop_last() =~= a + b.drop_last());
        assert((a + b).last() == b.last());
        named_attributes_keep_their_order(a, b.drop_last());
        assert(named(a + b) =~= named(a) + named(b));
    }
}

/// An attribute that is named stands for itself among the named ones, and a
/// spread does not.
pub proof fn a_named_attribute_is_itself(attr: JsxAttribute, span: Span, argument: std::rc::Rc<Expr>)
    ensures
        named(seq![JsxAttr::Named(attr)]) == seq![attr],
        named(seq![JsxAttr::Spread { span, argument }]) == Seq::<JsxAttribute>::empty(),
{
    reveal(named);
    let one = seq![JsxAttr::Named(attr)];
    let other = seq![JsxAttr::Spread { span, argument }];
    assert(one.drop_last() =~= seq![]);
    assert(other.drop_last() =~= seq![]);
    assert(named(one.drop_last()) == Seq::<JsxAttribute>::empty());
    assert(named(other.drop_last()) == Seq::<JsxAttribute>::empty());
}

/// A group of attributes holds those of the group, in their order, and no others.
pub proof fn a_group_holds_its_attributes(attrs: Seq<JsxAttribute>, group: AttrGroup)
    ensures
        forall|k: int|
            0 <= k < in_group(attrs, group).len() ==> group_of(
                #[trigger] in_group(attrs, group)[k],
            ) == group && attrs.contains(in_group(attrs, group)[k]),
        forall|i: int|
            0 <= i < attrs.len() && group_of(#[trigger] attrs[i]) == group ==> in_group(
                attrs,
                group,
            ).contains(attrs[i]),
    decreases attrs.len(),
{
    reveal(in_group);
    if attrs.len() > 0 {
        let front = attrs.drop_last();
        a_group_holds_its_attributes(front, group);
        let head = in_group(front, group);
        let all = in_group(attrs, group);
        assert forall|k: int| 0 <= k < all.len() implies group_of(#[trigger] all[k]) == group
            && attrs.contains(all[k]) by {
            if k < head.len() {
                assert(all[k] == head[k]);
                let i = choose|i: int| 0 <= i < front.len() && front[i] == head[k];
                assert(attrs[i] == all[k]);
            } else {
                assert(attrs[attrs.len() - 1] == all[k]);
            }
        }
        assert forall|i: int|
            0 <= i < attrs.len() && group_of(
                #[trigger] attrs[i],
            ) == group implies all.contains(attrs[i]) by {
            if i < front.len() {
                assert(front[i] == attrs[i]);
                let k = choose|k: int| 0 <= k < head.len() && head[k] == attrs[i];
                assert(all[k] == attrs[i]);
            } else {
                assert(all[all.len() - 1] == attrs[i]);
            }
        }
    }
}

/// The groups of two lists are those of the first and then those of the second.
pub proof fn groups_keep_their_order(
    a: Seq<JsxAttribute>,
    b: Seq<JsxAttribute>,
    group: AttrGroup,
)
    ensures
        in_group(a + b, group) == in_group(a, group) + in_group(b, group),
    decreases b.len(),
{
    reveal(in_group);
    if b.len() == 0 {
        assert(a + b =~= a);
        assert(in_group(a, group) + in_group(b, group) =~= in_group(a, group));
    } else {
        assert((a + b).drop_last() =~= a + b.drop_last());
        assert((a + b).last() == b.last());
        groups_keep_their_order(a, b.drop_last(), group);
        assert(in_group(a + b, group) =~= in_group(a, group) + in_group(b, group));
    }
}

/// Every attribute is in one group, so that none is set twice and none is lost.
pub proof fn groups_part_the_attributes(attrs: Seq<JsxAttribute>)
    ensures
        in_group(attrs, AttrGroup::Class).len() + in_group(attrs, AttrGroup::ClassName).len()
            + in_group(attrs, AttrGroup::Children).len() + in_group(
            attrs,
            AttrGroup::Listener,
        ).len() + in_group(attrs, AttrGroup::Style).len() + in_group(attrs, AttrGroup::Plain).len()
            == attrs.len(),
    decreases attrs.len(),
{
    reveal(in_group);
    if attrs.len() > 0 {
        groups_part_the_attributes(attrs.drop_last());
    }
}

/// The group of an attribute goes by its key.
pub proof fn a_group_goes_by_the_key(attr: JsxAttribute)
    ensures
        attr.key@ == "class"@ <==> group_of(attr) == AttrGroup::Class,
        attr.key@ == "className"@ <==> group_of(attr) == AttrGroup::ClassName,
        starts_with(attr.key@, "on:"@) <==> group_of(attr) == AttrGroup::Listener,
        group_of(attr) == AttrGroup::Children ==> attr.key@ == "children"@,
        group_of(attr) == AttrGroup::Style <==> attr.key@ == "style"@ && attr.value is Str,
{
    reveal_strlit("class");
    reveal_strlit("className");
    reveal_strlit("children");
    reveal_strlit("on:");
    reveal_strlit("style");
    assert("class"@.len() == 5 && "className"@.len() == 9 && "children"@.len() == 8);
    assert("style"@.len() == 5 && "style"@[0] == 's' && "class"@[0] == 'c');
    assert("className"@[0] == 'c' && "children"@[0] == 'c');
    if starts_with(attr.key@, "on:"@) {
        assert(attr.key@.take(3)[0] == 'o');
    }
}

/// The bindings of classes come up before the others, from a place on, and both
/// keep their order.
pub proof fn classes_come_up(bindings: Seq<BindingV>, from: int)
    requires
        0 <= from <= bindings.len(),
    ensures
        classes_up(bindings, from).len() == bindings.len(),
        classes_up(bindings, from).take(from) == bindings.take(from),
        forall|i: int, j: int|
            from <= i < j < bindings.len() && is_class(
                (#[trigger] classes_up(bindings, from)[j]).key,
            ) ==> is_class((#[trigger] classes_up(bindings, from)[i]).key),
        forall|k: int|
            from <= k < bindings.len() ==> bindings.skip(from).contains(
                #[trigger] classes_up(bindings, from)[k],
            ),
{
    let tail = bindings.skip(from);
    bindings_are_parted(tail);
    let yes = class_bindings(tail, true);
    let no = class_bindings(tail, false);
    let all = classes_up(bindings, from);
    assert(all.len() == from + yes.len() + no.len());
    assert(all.take(from) =~= bindings.take(from));
    assert forall|i: int, j: int|
        from <= i < j < bindings.len() && is_class((#[trigger] all[j]).key) implies is_class(
        (#[trigger] all[i]).key,
    ) by {
        if j >= from + yes.len() {
            assert(all[j] == no[j - from - yes.len()]);
        } else {
            assert(all[i] == yes[i - from]);
        }
    }
    assert forall|k: int| from <= k < bindings.len() implies tail.contains(#[trigger] all[k]) by {
        if k < from + yes.len() {
            assert(all[k] == yes[k - from]);
        } else {
            assert(all[k] == no[k - from - yes.len()]);
        }
    }
}

/// A key is that of a class.
pub open spec fn is_class(key: Seq<char>) -> bool {
    key == "class"@ || key == "className"@
}

proof fn bindings_are_parted(bindings: Seq<BindingV>)
    ensures
        class_bindings(bindings, true).len() + class_bindings(bindings, false).len()
            == bindings.len(),
        forall|k: int|
            0 <= k < class_bindings(bindings, true).len() ==> is_class(
                (#[trigger] class_bindings(bindings, true)[k]).key,
            ) && bindings.contains(class_bindings(bindings, true)[k]),
        forall|k: int|
            0 <= k < class_bindings(bindings, false).len() ==> !is_class(
                (#[trigger] class_bindings(bindings, false)[k]).key,
            ) && bindings.contains(class_bindings(bindings, false)[k]),
    decreases bindings.len(),
{
    if bindings.len() > 0 {
        let front = bindings.drop_last();
        bindings_are_parted(front);
        assert(bindings[bindings.len() - 1] == bindings.last());
        assert forall|b: BindingV| front.contains(b) implies bindings.contains(b) by {
            let i = choose|i: int| 0 <= i < front.len() && front[i] == b;
            assert(bindings[i] == b);
        }
        assert forall|k: int| 0 <= k < class_bindings(bindings, true).len() implies is_class(
            (#[trigger] class_bindings(bindings, true)[k]).key,
        ) && bindings.contains(class_bindings(bindings, true)[k]) by {
            if k < class_bindings(front, true).len() {
                assert(class_bindings(front, true)[k] == class_bindings(bindings, true)[k]);
            }
        }
        assert forall|k: int| 0 <= k < class_bindings(bindings, false).len() implies !is_class(
            (#[trigger] class_bindings(bindings, false)[k]).key,
        ) && bindings.contains(class_bindings(bindings, false)[k]) by {
            if k < class_bindings(front, false).len() {
                assert(class_bindings(front, false)[k] == class_bindings(bindings, false)[k]);
            }
        }
    }
}

/// An element is spread over when all its own attributes are set.
pub proof fn a_spread_comes_last(
    attrs: Seq<JsxAttr>,
    has_children: bool,
    result: ResultV,
    ctx: ContextV,
    options: TransformOptions,
    vocabulary: Vocabulary,
)
    ensures
        ({
            let done = attributes_v(attrs, has_children, result, ctx, options, vocabulary).0;
            let (state, spread) = start_v(attrs, result.id, has_children, result, ctx, options);
            let set = ordered_v(
                left_v(attrs, ctx.source, options),
                result.id,
                has_children,
                state,
                options,
                vocabulary,
            );
            &&& spread is Some && set.1 == Progress::Finished ==> done.exprs.len() > 0
                && done.exprs.last() == spread->0 && done.exprs.drop_last() == set.0.result.exprs
            &&& spread is None ==> done == set.0.result
            &&& !has_spread(attrs) ==> spread is None && left_v(attrs, ctx.source, options)
                == named(attrs)
        }),
{
    reveal(attributes_v);
    reveal(start_v);
    reveal(left_v);
    let done = attributes_v(attrs, has_children, result, ctx, options, vocabulary).0;
    let (state, spread) = start_v(attrs, result.id, has_children, result, ctx, options);
    let set = ordered_v(
        left_v(attrs, ctx.source, options),
        result.id,
        has_children,
        state,
        options,
        vocabulary,
    );
    if spread is Some && set.1 == Progress::Finished {
        assert(done.exprs.drop_last() =~= set.0.result.exprs);
    }
}

/// The children that an attribute gives are those of the last such attribute, and
/// only of an element without children of its own.
pub proof fn given_children_are_the_last(
    attrs: Seq<JsxAttribute>,
    has_children: bool,
    source: Seq<char>,
    marker: Seq<char>,
)
    ensures
        has_children ==> synthetic_v(attrs, has_children, source, marker) is None,
        synthetic_v(attrs, has_children, source, marker) matches Some((expr, _)) ==> attrs.len() > 0
            && in_group(attrs, AttrGroup::Children).len() > 0 && (children_expr(
            in_group(attrs, AttrGroup::Children).last(),
        ) matches Some((_, given)) ==> given == expr),
{
    reveal(synthetic_v);
    reveal(in_group);
}

// ---------------------------------------------------------------------------
// Closing tags
// ---------------------------------------------------------------------------

/// A closing tag may go where its element is the last and this is asked for, and
/// no element round it needs it.
pub proof fn a_closing_tag_may_go(info: InfoV, tag: Seq<char>, options: TransformOptions)
    ensures
        !info.last_element ==> info.closes(tag, options),
        !options.omit_last_closing_tag ==> info.closes(tag, options),
        info.last_element && options.omit_last_closing_tag && info.to_be_closed is None
            ==> !info.closes(tag, options),
        info.last_element && options.omit_last_closing_tag && info.to_be_closed is Some
            && !options.omit_nested_closing_tags ==> info.closes(tag, options),
        info.last_element && options.omit_last_closing_tag && info.to_be_closed is Some
            && options.omit_nested_closing_tags ==> (info.closes(tag, options) <==> (
        info.to_be_closed->0).contains(tag)),
{
}

/// What an element that is closed asks of those inside it: that its own tag is
/// closed there too, all that was asked before, and where it is an inline element
/// all blocks.
pub proof fn what_is_closed_inside(
    info: InfoV,
    tag: Seq<char>,
    other: Seq<char>,
    options: TransformOptions,
    vocabulary: Vocabulary,
)
    ensures
        ({
            let below = info.closed_below(tag, options, vocabulary);
            let before = match info.to_be_closed {
                Some(tags) => tags.contains(other),
                None => texts(vocabulary.always_close@).contains(other),
            };
            let inline = texts(vocabulary.inline_elements@).contains(tag);
            &&& !info.closes(tag, options) ==> below == info.to_be_closed
            &&& info.closes(tag, options) ==> below is Some && ((below->0).contains(other)
                <==> other == tag || before || (inline && texts(
                vocabulary.block_elements@,
            ).contains(other)))
        }),
{
}

/// Inside an element with a variable the walks start there; inside any other they
/// go on from where they were.
pub proof fn walks_start_at_a_variable(
    info: InfoV,
    tag: Seq<char>,
    id: Option<Seq<char>>,
    options: TransformOptions,
    vocabulary: Vocabulary,
)
    ensures
        ({
            let below = info.below(tag, id, options, vocabulary);
            &&& id is Some ==> below.root_id == id && below.path.len() == 0
            &&& id is None ==> below.root_id == info.root_id && below.path == info.path
            &&& !below.top_level
            &&& below.skip_id == info.skip_id
            &&& below.last_element == info.last_element
        }),
{
}

// ---------------------------------------------------------------------------
// Names
// ---------------------------------------------------------------------------

/// A name is written as the first entry of its table says, or as it is.
pub proof fn a_name_is_written_as_listed(vocabulary: Vocabulary, key: Seq<char>)
    ensures
        (forall|i: int|
            0 <= i < vocabulary.aliases@.len() ==> (#[trigger] vocabulary.aliases@[i]).0@ != key)
            ==> vocabulary.written(key) == key,
        (exists|i: int|
            0 <= i < vocabulary.aliases@.len() && (#[trigger] vocabulary.aliases@[i]).0@ == key)
            ==> exists|i: int|
            0 <= i < vocabulary.aliases@.len() && (#[trigger] vocabulary.aliases@[i]).0@ == key
                && vocabulary.aliases@[i].1@ == vocabulary.written(key) && forall|j: int|
                0 <= j < i ==> (#[trigger] vocabulary.aliases@[j]).0@ != key,
{
    an_entry_is_the_first(vocabulary.aliases@, key);
}

proof fn an_entry_is_the_first(table: Seq<(String, String)>, key: Seq<char>)
    ensures
        match entry(table, key) {
            Some(value) => exists|i: int|
                0 <= i < table.len() && (#[trigger] table[i]).0@ == key && table[i].1@ == value
                    && forall|j: int| 0 <= j < i ==> (#[trigger] table[j]).0@ != key,
            None => forall|i: int| 0 <= i < table.len() ==> (#[trigger] table[i]).0@ != key,
        },
    decreases table.len(),
{
    if table.len() > 0 && table[0].0@ != key {
        let rest = table.skip(1);
        an_entry_is_the_first(rest, key);
        match entry(rest, key) {
            Some(value) => {
                let i = choose|i: int|
                    0 <= i < rest.len() && (#[trigger] rest[i]).0@ == key && rest[i].1@ == value
                        && forall|j: int| 0 <= j < i ==> (#[trigger] rest[j]).0@ != key;
                assert(table[i + 1] == rest[i]);
                assert forall|j: int| 0 <= j < i + 1 implies (#[trigger] table[j]).0@ != key by {
                    if j > 0 {
                        assert(rest[j - 1] == table[j]);
                    }
                }
            },
            None => {
                assert forall|i: int| 0 <= i < table.len() implies (#[trigger] table[i]).0@
                    != key by {
                    if i > 0 {
                        assert(rest[i - 1] == table[i]);
                    }
                }
            },
        }
    }
}

/// A property has the name that is listed for it and the tag, or its own.
pub proof fn a_property_is_named_as_listed(vocabulary: Vocabulary, key: Seq<char>, tag: Seq<char>)
    ensures
        (forall|i: int|
            0 <= i < vocabulary.prop_aliases@.len() ==> !((
            #[trigger] vocabulary.prop_aliases@[i]).name@ == key && vocabulary.prop_aliases@[i].tag@
                == tag)) ==> vocabulary.property_name(key, tag) == key,
        vocabulary.property_name(key, tag) != key ==> exists|i: int|
            0 <= i < vocabulary.prop_aliases@.len() && (
            #[trigger] vocabulary.prop_aliases@[i]).name@ == key && vocabulary.prop_aliases@[i].tag@
                == tag && vocabulary.prop_aliases@[i].alias@ == vocabulary.property_name(key, tag),
{
    an_alias_is_listed(vocabulary.prop_aliases@, key, tag);
}

proof fn an_alias_is_listed(table: Seq<PropAlias>, key: Seq<char>, tag: Seq<char>)
    ensures
        match prop_alias(table, key, tag) {
            Some(alias) => exists|i: int|
                0 <= i < table.len() && (#[trigger] table[i]).name@ == key && table[i].tag@ == tag
                    && table[i].alias@ == alias,
            None => forall|i: int|
                0 <= i < table.len() ==> !((#[trigger] table[i]).name@ == key && table[i].tag@
                    == tag),
        },
    decreases table.len(),
{
    if table.len() > 0 && !(table[0].name@ == key && table[0].tag@ == tag) {
        let rest = table.skip(1);
        an_alias_is_listed(rest, key, tag);
        match prop_alias(rest, key, tag) {
            Some(alias) => {
                let i = choose|i: int|
                    0 <= i < rest.len() && (#[trigger] rest[i]).name@ == key && rest[i].tag@ == tag
                        && rest[i].alias@ == alias;
                assert(table[i + 1] == rest[i]);
            },
            None => {
                assert forall|i: int| 0 <= i < table.len() implies !((
                #[trigger] table[i]).name@ == key && table[i].tag@ == tag) by {
                    if i > 0 {
                        assert(rest[i - 1] == table[i]);
                    }
                }
            },
        }
    }
}

// ---------------------------------------------------------------------------
// Wrappers
// ---------------------------------------------------------------------------

/// What is left of an expression without its brackets and types has none, and
/// brackets and types round it change nothing of that.
pub proof fn peeling_takes_all_wrappers(expr: ExprV)
    ensures
        !(peeled_v(expr).kind is Paren) && !(peeled_v(expr).kind is Typed),
        peeled_v(peeled_v(expr)) == peeled_v(expr),
        expr.kind matches KindV::Paren(inner) ==> peeled_v(expr) == peeled_v(*inner),
        expr.kind matches KindV::Typed { expr: inner, .. } ==> peeled_v(expr) == peeled_v(*inner),
        !(expr.kind is Paren) && !(expr.kind is Typed) ==> peeled_v(expr) == expr,
    decreases expr,
{
    match expr.kind {
        KindV::Paren(inner) => peeling_takes_all_wrappers(*inner),
        KindV::Typed { wrapper, expr: inner } => peeling_takes_all_wrappers(*inner),
        _ => {},
    }
}

/// The text of a literal is its own, whatever is round it.
pub proof fn a_literal_text_is_its_own(expr: ExprV)
    ensures
        expr.kind matches KindV::Str(text) ==> literal_text_v(expr) == Some(text),
        expr.kind matches KindV::Num(number) ==> literal_text_v(expr) == Some(number.shown()),
        expr.kind matches KindV::Template { quasis, exprs } ==> (exprs.len() == 0 && quasis.len()
            > 0 ==> literal_text_v(expr) == Some(quasis[0].raw)),
        expr.kind matches KindV::Template { quasis, exprs } ==> (exprs.len() > 0 ==> literal_text_v(
            expr,
        ) is None),
        expr.kind matches KindV::Paren(inner) ==> literal_text_v(expr) == literal_text_v(*inner),
        expr.kind is Ident || expr.kind is Call || expr.kind is Bool || expr.kind is Member
            ==> literal_text_v(expr) is None,
{
}

/// A name that is bound once can be resolved and cannot be written, and a name
/// that nothing is known of can be written and not be resolved.
pub proof fn a_name_is_resolved_by_its_symbol(expr: Expr)
    ensures
        peeled(expr).kind matches Kind::Ident { symbol: Some(symbol), .. } ==> {
            &&& symbol.is_const || symbol.is_import ==> !is_writable(expr) && is_resolvable(expr)
            &&& !symbol.is_const && !symbol.is_import ==> is_writable(expr) && (is_resolvable(expr)
                <==> symbol.is_function)
        },
        peeled(expr).kind matches Kind::Ident { symbol: None, .. } ==> is_writable(expr)
            && !is_resolvable(expr),
        peeled(expr).kind is Arrow || peeled(expr).kind is Function <==> is_function_handler(expr),
{
}

/// A call stands for the function that it calls where it has no arguments, and
/// where the function needs no object.
pub proof fn a_plain_call_is_its_callee(expr: Expr)
    ensures
        plain_call(expr) matches Some(function) ==> (
        expr.kind matches Kind::Call { callee, args, .. } && args@.len() == 0 && *callee == function
            && !(function.kind is Member) && !(function.kind is Index)),
        expr.kind matches Kind::Call { callee, args, .. } ==> (args@.len() == 0 && callee.kind
            is Ident ==> plain_call(expr) == Some(*callee)),
{
}

// ---------------------------------------------------------------------------
// Places in the source
// ---------------------------------------------------------------------------

proof fn bytes_add_up(a: Seq<char>, b: Seq<char>)
    ensures
        text_bytes(a + b) == text_bytes(a) + text_bytes(b),
    decreases b.len(),
{
    if b.len() == 0 {
        assert(a + b =~= a);
    } else {
        assert((a + b).drop_last() =~= a + b.drop_last());
        assert((a + b).last() == b.last());
        bytes_add_up(a, b.drop_last());
    }
}

proof fn an_index_is_behind_its_bytes(text: Seq<char>, bytes: nat)
    ensures
        char_index(text, bytes) matches Some(n) ==> n <= text.len() && text_bytes(
            text.take(n as int),
        ) == bytes,
    decreases text.len(),
{
    assert(text.take(text.len() as int) =~= text);
    if text_bytes(text) != bytes && text.len() > 0 {
        let front = text.drop_last();
        an_index_is_behind_its_bytes(front, bytes);
        if let Some(n) = char_index(front, bytes) {
            assert(text.take(n as int) =~= front.take(n as int));
        }
    }
}

/// The text at a place of the source begins behind the bytes before the place and
/// has as many as the place is long.
pub proof fn a_place_has_its_text(text: Seq<char>, span: Span)
    ensures
        span_text(text, span) matches Some(part) ==> exists|before: Seq<char>, after: Seq<char>|
            #![trigger text_bytes(before), text_bytes(after)]
            text == before + part + after && text_bytes(before) == span.start && text_bytes(part)
                == span.end - span.start,
{
    an_index_is_behind_its_bytes(text, span.start as nat);
    an_index_is_behind_its_bytes(text, span.end as nat);
    if let Some(part) = span_text(text, span) {
        let from = char_index(text, span.start as nat)->0 as int;
        let to = char_index(text, span.end as nat)->0 as int;
        let before = text.take(from);
        let after = text.skip(to);
        if to < from {
            assert(text.take(from) =~= text.take(to) + text.subrange(to, from));
            bytes_add_up(text.take(to), text.subrange(to, from));
        }
        assert(text.take(to) =~= before + part);
        bytes_add_up(before, part);
        assert(text =~= before + part + after);
        assert(text_bytes(after) >= 0);
    }
}

} // verus!
