//! What the attributes of an element in the browser do to it.

use crate::ast::{
    no_span, ExprV, Expr, JsxAttribute, JsxValue, KindV, PatternV, Prop, Span, StmtV,
};
use crate::attribute::{text_content_v, AttrStateV};
use crate::attributes::{inline_v, inline_value, needs_quotes, wraps_effects, class_toggle_v, el_v};
use crate::effect_laws::{calls_method, sets_by};
use crate::handler_laws::{a_variable_is_itself, is_variable};
use crate::ir::{ContextV, ResultV};
use crate::marker::static_marker;
use crate::options::TransformOptions;
use crate::properties::{
    bool_attr_v, bool_literal, class_namespace_v, class_prop, class_props_v, inner_content_v,
    inner_expr_v, inner_set_v, literal_flag, prop_v, style_namespace_v,
};
use crate::shape::{
    arg, assigns_to, calls_helper, is_cast, is_flag, is_name, is_text, is_thunk, reads_of,
};
use crate::style::{
    inline_styles_v, kept_v, single_v, singles_v, style_prop_v, whole_style_v, StylePropV,
};
use crate::text::{ascii_lowercase, escape_html_v, replace_v, trim_whitespace_v};
use crate::text_laws::{an_escaped_text_reads_back, breaks_out, solid, unescaped};
use vstd::prelude::*;

verus! {

// ---------------------------------------------------------------------------
// In the template
// ---------------------------------------------------------------------------

/// The name that an attribute has in a template: in small letters, except in SVG.
pub open spec fn template_key(key: Seq<char>, is_svg: bool) -> Seq<char> {
    if !is_svg && key != "className"@ {
        ascii_lowercase(key)
    } else {
        key
    }
}

/// A text is an attribute with this name, and with this value where it has one
/// that is not empty, in quotes or bare.
pub open spec fn is_written(
    text: Seq<char>,
    name: Seq<char>,
    value: Option<Seq<char>>,
    quoted: bool,
) -> bool {
    if value is None || (value->0).len() == 0 {
        text == name && !quoted
    } else {
        exists|shown: Seq<char>|
            {
                &&& #[trigger] unescaped(shown) == value->0
                &&& forall|i: int| 0 <= i < shown.len() ==> #[trigger] shown[i] != '"'
                &&& text == if quoted {
                    name + seq!['=', '"'] + shown + seq!['"']
                } else {
                    name + seq!['='] + shown
                }
            }
    }
}

/// An attribute that is known goes into the template under its name, with its
/// value escaped; it has quotes unless they may go, and a blank before it unless
/// a quote stands there.
pub proof fn an_attribute_goes_into_the_template(
    result: ResultV,
    key: Seq<char>,
    value: Option<Seq<char>>,
    omit_quotes: bool,
    spacing: bool,
)
    ensures
        ({
            let (done, space) = inline_v(result, key, value, omit_quotes, spacing);
            let name = template_key(key, result.is_svg);
            let text = match value {
                Some(raw) => Some(inline_value(name, raw)),
                None => None,
            };
            let lead = if spacing {
                1int
            } else {
                0
            };
            let n = result.template.len();
            &&& done.template.len() >= n + lead
            &&& done.template.take(n as int) == result.template
            &&& spacing ==> done.template[n as int] == ' '
            &&& is_written(done.template.skip(n + lead), name, text, !space)
            &&& !space ==> !omit_quotes || needs_quotes(text->0)
            &&& text is Some && (text->0).len() > 0 && (!omit_quotes || needs_quotes(text->0))
                ==> !space
            &&& done.exprs == result.exprs && done.dynamics == result.dynamics && done.statements
                == result.statements && done.declarations == result.declarations
        }),
{
    reveal_strlit(" ");
    reveal_strlit("");
    reveal_strlit("=");
    reveal_strlit("=\"");
    reveal_strlit("\"");
    assert(" "@ =~= seq![' ']);
    assert(""@ =~= Seq::<char>::empty());
    assert("="@ =~= seq!['=']);
    assert("=\""@ =~= seq!['=', '"']);
    assert("\""@ =~= seq!['"']);
    let (done, space) = inline_v(result, key, value, omit_quotes, spacing);
    let name = template_key(key, result.is_svg);
    let lead = if spacing {
        1int
    } else {
        0
    };
    let n = result.template.len() as int;
    assert(done.template.take(n) =~= result.template);
    let added = done.template.skip(n + lead);
    match value {
        None => {
            assert(added =~= name);
        },
        Some(raw) => {
            let text = inline_value(name, raw);
            let shown = escape_html_v(text, true);
            an_escaped_text_reads_back(text, true);
            assert forall|i: int| 0 <= i < shown.len() implies #[trigger] shown[i] != '"' by {
                assert(!breaks_out(shown[i], true));
            }
            if text.len() == 0 {
                assert(added =~= name);
            } else if !space {
                assert(added =~= name + seq!['=', '"'] + shown + seq!['"']);
            } else {
                assert(added =~= name + seq!['='] + shown);
            }
        },
    }
}

/// The value that goes into a template keeps its characters, but for white space
/// in a style or a class, and for the last semicolon of a style.
pub proof fn a_template_value_keeps_its_characters(key: Seq<char>, value: Seq<char>)
    ensures
        key != "style"@ && key != "class"@ ==> inline_value(key, value) == value,
        key == "class"@ && key != "style"@ ==> solid(inline_value(key, value)) == solid(value),
        key == "style"@ ==> solid(inline_value(key, value)) == solid(value) || solid(
            inline_value(key, value),
        ).push(';') == solid(value),
{
    crate::text_laws::trimming_loses_nothing(value);
    let trimmed = trim_whitespace_v(value);
    let once = replace_v(trimmed, seq![';', ' '], seq![';']);
    crate::server_laws::replacing_is_no_loss(trimmed, ';');
    crate::server_laws::replacing_is_no_loss(once, ':');
}

// ---------------------------------------------------------------------------
// Bindings
// ---------------------------------------------------------------------------

/// A result has one more binding, of this element, key and value.
pub open spec fn binds(
    before: ResultV,
    after: ResultV,
    elem: Seq<char>,
    key: Seq<char>,
    value: ExprV,
) -> bool {
    &&& after.dynamics.len() == before.dynamics.len() + 1
    &&& after.dynamics.drop_last() == before.dynamics
    &&& after.dynamics.last().elem == elem
    &&& after.dynamics.last().key == key
    &&& after.dynamics.last().value == value
    &&& after.exprs == before.exprs
    &&& after.template == before.template
}

/// A result has one more expression.
pub open spec fn does(before: ResultV, after: ResultV) -> bool {
    &&& after.exprs.len() == before.exprs.len() + 1
    &&& after.exprs.drop_last() == before.exprs
    &&& after.dynamics == before.dynamics
    &&& after.template == before.template
}

proof fn one_more_binding(result: ResultV, elem: Seq<char>, key: Seq<char>, value: ExprV)
    ensures
        binds(result, result.with_binding(result.binding(elem, key, value)), elem, key, value),
{
    let done = result.with_binding(result.binding(elem, key, value));
    assert(done.dynamics.drop_last() =~= result.dynamics);
}

proof fn one_more_expr(result: ResultV, expr: ExprV)
    ensures
        does(result, result.with_expr(expr)),
        result.with_expr(expr).exprs.last() == expr,
{
    assert(result.with_expr(expr).exprs.drop_last() =~= result.exprs);
}

/// A property is kept up to date where its value changes, and assigned once where
/// it does not: the value, the text, or `true`.
pub proof fn a_property_is_assigned(attr: JsxAttribute, elem: Seq<char>, result: ResultV)
    requires
        is_variable(elem),
    ensures
        ({
            let done = prop_v(attr, elem, result);
            let name = attr.key@.skip("prop:"@.len() as int);
            match attr.value {
                JsxValue::Container { expr: Some(expr), .. } => if expr.facts.dynamic {
                    binds(result, done, elem, attr.key@, expr@)
                } else {
                    does(result, done) && assigns_to(done.exprs.last(), elem, name, expr@)
                },
                JsxValue::Str { value, .. } => does(result, done) && exists|text: ExprV|
                    is_text(text, value@) && #[trigger] assigns_to(
                        done.exprs.last(),
                        elem,
                        name,
                        text,
                    ),
                JsxValue::Absent => does(result, done) && exists|yes: ExprV|
                    is_flag(yes, true) && #[trigger] assigns_to(
                        done.exprs.last(),
                        elem,
                        name,
                        yes,
                    ),
                _ => done == result,
            }
        }),
{
    a_variable_is_itself(elem);
    let done = prop_v(attr, elem, result);
    match attr.value {
        JsxValue::Container { expr: Some(expr), .. } => {
            one_more_binding(result, elem, attr.key@, expr@);
            one_more_expr(
                result,
                crate::properties::prop_assign_v(
                    elem,
                    attr.key@.skip("prop:"@.len() as int),
                    expr@,
                ),
            );
        },
        _ => {
            if done.exprs.len() > 0 {
                one_more_expr(result, done.exprs.last());
                let value = *done.exprs.last().kind->Assign_value;
                assert(attr.value is Str || attr.value is Absent ==> assigns_to(
                    done.exprs.last(),
                    elem,
                    attr.key@.skip("prop:"@.len() as int),
                    value,
                ));
            }
        },
    }
}

/// An expression toggles a class of an element.
pub open spec fn toggles(expr: ExprV, elem: Seq<char>, name: Seq<char>, on: ExprV) -> bool {
    calls_method(expr, elem, "classList"@, "toggle"@, 2) && is_text(arg(expr, 0), name) && arg(
        expr,
        1,
    ) == on
}

/// A class is kept up to date where its value changes, and toggled once where it
/// does not, by whether the value holds.
pub proof fn a_class_is_toggled(attr: JsxAttribute, elem: Seq<char>, result: ResultV)
    requires
        is_variable(elem),
    ensures
        ({
            let done = class_namespace_v(attr, elem, result);
            let name = attr.key@.skip("class:"@.len() as int);
            match attr.value {
                JsxValue::Container { expr: Some(expr), .. } => if expr.facts.dynamic {
                    binds(result, done, elem, attr.key@, expr@)
                } else {
                    does(result, done) && toggles(
                        done.exprs.last(),
                        elem,
                        name,
                        arg(done.exprs.last(), 1),
                    ) && is_cast(arg(done.exprs.last(), 1), expr@)
                },
                JsxValue::Str { value, .. } => does(result, done) && toggles(
                    done.exprs.last(),
                    elem,
                    name,
                    arg(done.exprs.last(), 1),
                ) && is_flag(arg(done.exprs.last(), 1), value@.len() > 0),
                JsxValue::Absent => does(result, done) && toggles(
                    done.exprs.last(),
                    elem,
                    name,
                    arg(done.exprs.last(), 1),
                ) && is_flag(arg(done.exprs.last(), 1), true),
                _ => done == result,
            }
        }),
{
    a_variable_is_itself(elem);
    let done = class_namespace_v(attr, elem, result);
    match attr.value {
        JsxValue::Container { expr: Some(expr), .. } => {
            one_more_binding(result, elem, attr.key@, expr@);
        },
        _ => {},
    }
    if done.exprs.len() > 0 {
        one_more_expr(result, done.exprs.last());
    }
}

/// A style property is kept up to date where its value changes, and set once
/// where it does not.
pub proof fn a_style_property_is_set(
    attr: JsxAttribute,
    elem: Seq<char>,
    result: ResultV,
    ctx: ContextV,
)
    requires
        is_variable(elem),
    ensures
        ({
            let done = style_namespace_v(attr, elem, result, ctx).0;
            let name = attr.key@.skip("style:"@.len() as int);
            match attr.value {
                JsxValue::Container { expr: Some(expr), .. } => if expr.facts.dynamic {
                    binds(result, done, elem, attr.key@, expr@)
                } else {
                    does(result, done) && sets_by(
                        done.exprs.last(),
                        "setStyleProperty"@,
                        elem,
                        name,
                        expr@,
                    )
                },
                JsxValue::Str { value, .. } => does(result, done) && sets_by(
                    done.exprs.last(),
                    "setStyleProperty"@,
                    elem,
                    name,
                    arg(done.exprs.last(), 2),
                ) && is_text(arg(done.exprs.last(), 2), value@),
                _ => done == result,
            }
        }),
{
    reveal(style_namespace_v);
    a_variable_is_itself(elem);
    let done = style_namespace_v(attr, elem, result, ctx).0;
    match attr.value {
        JsxValue::Container { expr: Some(expr), .. } => {
            one_more_binding(result, elem, attr.key@, expr@);
        },
        _ => {},
    }
    if done.exprs.len() > 0 {
        one_more_expr(result, done.exprs.last());
    }
}

/// A flag that is known goes into the template where it holds, and nowhere where
/// it does not; any other is set by the helper, and again whenever it changes.
pub proof fn a_flag_is_set(
    attr: JsxAttribute,
    elem: Seq<char>,
    result: ResultV,
    ctx: ContextV,
    options: TransformOptions,
    spacing: bool,
)
    requires
        is_variable(elem),
    ensures
        ({
            let done = bool_attr_v(attr, elem, result, ctx, options, spacing);
            let name = attr.key@.skip("bool:"@.len() as int);
            let known = match attr.value {
                JsxValue::Absent => Some(true),
                JsxValue::Str { value, .. } => Some(value@.len() > 0 && value@ != "0"@),
                JsxValue::Container { expr: Some(expr), .. } => bool_literal(*expr),
                _ => Some(false),
            };
            &&& known == Some(false) ==> done.0 == result && done.2 == spacing
            &&& known == Some(true) ==> done.0 == inline_v(
                result,
                name,
                None,
                options.omit_quotes,
                spacing,
            ).0
            &&& known is None ==> attr.value is Container && does(result, done.0) && {
                let expr = attr.value->expr->0;
                let last = done.0.exprs.last();
                if expr.facts.dynamic && wraps_effects(options) {
                    calls_helper(last, "effect"@, 1) && exists|set: ExprV|
                        #[trigger] is_thunk(arg(last, 0), set) && sets_by(
                            set,
                            "setBoolAttribute"@,
                            elem,
                            name,
                            expr@,
                        )
                } else {
                    sets_by(last, "setBoolAttribute"@, elem, name, expr@)
                }
            }
        }),
{
    reveal(bool_attr_v);
    a_variable_is_itself(elem);
    let done = bool_attr_v(attr, elem, result, ctx, options, spacing);
    if done.0.exprs.len() > 0 {
        one_more_expr(result, done.0.exprs.last());
    }
    match attr.value {
        JsxValue::Container { expr: Some(expr), .. } => {
            let set = crate::make::call_v(
                no_span(),
                el_v("setBoolAttribute"@),
                seq![
                    el_v(elem),
                    crate::make::str_v(no_span(), attr.key@.skip("bool:"@.len() as int)),
                    expr@,
                ],
            );
            let last = done.0.exprs.last();
            assert(is_thunk(crate::make::thunk_v(no_span(), set), set));
        },
        _ => {},
    }
}

/// What a literal counts as where a condition is asked for: a boolean is itself,
/// a text holds unless it is empty, and nothing does not hold.
pub proof fn a_literal_holds(expr: Expr)
    ensures
        expr.kind matches crate::ast::Kind::Bool(value) ==> literal_flag(expr) == Some(value)
            && bool_literal(expr) == Some(value),
        expr.kind matches crate::ast::Kind::Str(text) ==> literal_flag(expr) == Some(
            text@.len() > 0,
        ) && bool_literal(expr) == Some(text@.len() > 0 && text@ != "0"@),
        expr.kind is Null ==> literal_flag(expr) == Some(false) && bool_literal(expr) == Some(
            false,
        ),
        expr.kind is Call || expr.kind is Member || expr.kind is Arrow ==> literal_flag(expr)
            is None && bool_literal(expr) is None,
{
}

// ---------------------------------------------------------------------------
// Classes of an object
// ---------------------------------------------------------------------------

/// A class of an object goes the way of its value: into the template where it
/// holds, nowhere where it does not, and else it is kept up to date, or toggled
/// once.
pub open spec fn goes_its_way(
    prop: Prop,
    elem: Seq<char>,
    done: ResultV,
    classes: Seq<Seq<char>>,
) -> bool {
    class_prop(prop) is Some && {
        let (name, value) = class_prop(prop)->0;
        match literal_flag(*value) {
            Some(true) => classes.contains(name),
            Some(false) => true,
            None => if value.facts.dynamic {
                exists|k: int|
                    0 <= k < done.dynamics.len() && (#[trigger] done.dynamics[k]).elem == elem
                        && done.dynamics[k].key == "class:"@ + name && done.dynamics[k].value
                        == value@
            } else {
                exists|k: int|
                    0 <= k < done.exprs.len() && toggles(
                        #[trigger] done.exprs[k],
                        elem,
                        name,
                        arg(done.exprs[k], 1),
                    ) && is_cast(arg(done.exprs[k], 1), value@)
            },
        }
    }
}

/// What was there stays, in its place.
pub open spec fn is_kept(before: ResultV, after: ResultV) -> bool {
    &&& after.exprs.len() >= before.exprs.len()
    &&& after.exprs.take(before.exprs.len() as int) == before.exprs
    &&& after.dynamics.len() >= before.dynamics.len()
    &&& after.dynamics.take(before.dynamics.len() as int) == before.dynamics
}

spec fn prop_flag(prop: Prop) -> Option<bool> {
    literal_flag(*(class_prop(prop)->0).1)
}

/// Every class of an object goes its way, and none is added that does not hold.
pub proof fn classes_of_an_object(
    props: Seq<Prop>,
    elem: Seq<char>,
    result: ResultV,
    classes: Seq<Seq<char>>,
)
    requires
        is_variable(elem),
    ensures
        ({
            let (taken, done, all) = class_props_v(props, elem, result, classes);
            &&& is_kept(result, done)
            &&& all.len() >= classes.len()
            &&& all.take(classes.len() as int) == classes
            &&& taken ==> forall|i: int|
                0 <= i < props.len() ==> goes_its_way(#[trigger] props[i], elem, done, all)
            &&& forall|k: int|
                classes.len() <= k < all.len() ==> exists|i: int|
                    0 <= i < props.len() && holds_as(#[trigger] props[i], #[trigger] all[k])
        }),
    decreases props.len(),
{
    a_variable_is_itself(elem);
    let (taken, done, all) = class_props_v(props, elem, result, classes);
    if props.len() == 0 || class_prop(props[0]) is None {
        assert(done.exprs.take(result.exprs.len() as int) =~= result.exprs);
        assert(done.dynamics.take(result.dynamics.len() as int) =~= result.dynamics);
        assert(all.take(classes.len() as int) =~= classes);
    } else {
        let (name, value) = class_prop(props[0])->0;
        let rest = props.skip(1);
        let mid = match prop_flag(props[0]) {
            Some(_) => result,
            None => if value.facts.dynamic {
                result.with_binding(result.binding(elem, "class:"@ + name, value@))
            } else {
                result.with_expr(
                    class_toggle_v(elem, name, crate::make::bool_cast_v(no_span(), value@)),
                )
            },
        };
        let more = if prop_flag(props[0]) == Some(true) {
            classes.push(name)
        } else {
            classes
        };
        classes_of_an_object(rest, elem, mid, more);
        assert(class_props_v(props, elem, result, classes) == class_props_v(
            rest,
            elem,
            mid,
            more,
        ));
        assert(done.exprs.take(result.exprs.len() as int) =~= result.exprs) by {
            assert(mid.exprs.take(result.exprs.len() as int) =~= result.exprs);
            assert(done.exprs.take(result.exprs.len() as int) =~= done.exprs.take(
                mid.exprs.len() as int,
            ).take(result.exprs.len() as int));
        }
        assert(done.dynamics.take(result.dynamics.len() as int) =~= result.dynamics) by {
            assert(mid.dynamics.take(result.dynamics.len() as int) =~= result.dynamics);
            assert(done.dynamics.take(result.dynamics.len() as int) =~= done.dynamics.take(
                mid.dynamics.len() as int,
            ).take(result.dynamics.len() as int));
        }
        assert(all.take(classes.len() as int) =~= classes) by {
            assert(all.take(classes.len() as int) =~= all.take(more.len() as int).take(
                classes.len() as int,
            ));
            assert(more.take(classes.len() as int) =~= classes);
        }
        assert(goes_its_way(props[0], elem, done, all)) by {
            if prop_flag(props[0]) == Some(true) {
                assert(all.take(more.len() as int)[classes.len() as int] == name);
                assert(all[classes.len() as int] == name);
            } else if prop_flag(props[0]) is None {
                if value.facts.dynamic {
                    let k = result.dynamics.len() as int;
                    assert(done.dynamics.take(mid.dynamics.len() as int)[k] == mid.dynamics[k]);
                    assert(done.dynamics[k] == mid.dynamics[k]);
                } else {
                    let k = result.exprs.len() as int;
                    assert(done.exprs.take(mid.exprs.len() as int)[k] == mid.exprs[k]);
                    assert(done.exprs[k] == mid.exprs[k]);
                }
            }
        }
        if taken {
            assert forall|i: int| 0 <= i < props.len() implies goes_its_way(
                #[trigger] props[i],
                elem,
                done,
                all,
            ) by {
                if i > 0 {
                    assert(rest[i - 1] == props[i]);
                }
            }
        }
        assert forall|k: int| classes.len() <= k < all.len() implies exists|i: int|
            0 <= i < props.len() && holds_as(#[trigger] props[i], #[trigger] all[k]) by {
            if k < more.len() {
                assert(all.take(more.len() as int)[k] == more[k]);
                assert(holds_as(props[0], all[k]));
            } else {
                let i = choose|i: int|
                    0 <= i < rest.len() && holds_as(#[trigger] rest[i], all[k]);
                assert(props[i + 1] == rest[i]);
                assert(holds_as(props[i + 1], all[k]));
            }
        }
    }
}

/// A property is a class of this name that holds.
pub open spec fn holds_as(prop: Prop, name: Seq<char>) -> bool {
    class_prop(prop) is Some && (class_prop(prop)->0).0 == name && literal_flag(
        *(class_prop(prop)->0).1,
    ) == Some(true)
}

/// A class of an object has the name of its key, which is no list of names.
pub proof fn a_class_has_the_name_of_its_key(prop: Prop)
    ensures
        class_prop(prop) matches Some((name, value)) ==> !name.contains(' ') && !name.contains(
            ':',
        ) && (prop matches Prop::Named { key, value: v, computed, .. } && !computed && v == value
            && (match key {
            crate::ast::Key::Ident(text) => text@ == name,
            crate::ast::Key::Str(text) => text@ == name,
            _ => false,
        })),
{
}

// ---------------------------------------------------------------------------
// Styles
// ---------------------------------------------------------------------------

/// A style of a known value goes into the template, as its name in small letters
/// with hyphens, a colon and the value; one of no value goes nowhere; any other
/// is kept.
pub proof fn a_style_goes_its_way(prop: Prop)
    ensures
        prop is Spread ==> style_prop_v(prop) == StylePropV::Kept,
        prop matches Prop::Named { key, value, computed, .. } ==> {
            &&& computed ==> style_prop_v(prop) == StylePropV::Kept
            &&& !computed && value.kind is Null ==> style_prop_v(prop) == StylePropV::Dropped
            &&& !computed && (value.kind matches crate::ast::Kind::Str(text) && (
            key matches crate::ast::Key::Ident(name) && style_prop_v(prop) != StylePropV::Inline(
                crate::text::kebab_case(name@) + seq![':'] + text@,
            ))) ==> false
            &&& !computed && (value.kind matches crate::ast::Kind::Num(number) && (
            key matches crate::ast::Key::Ident(name) && style_prop_v(prop) != StylePropV::Inline(
                crate::text::kebab_case(name@) + seq![':'] + number.text@,
            ))) ==> false
            &&& value.kind is Call || value.kind is Member ==> style_prop_v(prop)
                == StylePropV::Kept
        },
{
    reveal_strlit(":");
    assert(":"@ =~= seq![':']);
}

/// The styles in the template, and those that are kept, of two lists of
/// properties are those of the first and then those of the second.
pub proof fn styles_keep_their_order(a: Seq<Prop>, b: Seq<Prop>)
    ensures
        inline_styles_v(a + b) == inline_styles_v(a) + inline_styles_v(b),
        kept_v(a + b) == kept_v(a) + kept_v(b),
    decreases b.len(),
{
    if b.len() == 0 {
        assert(a + b =~= a);
        assert(inline_styles_v(a) + inline_styles_v(b) =~= inline_styles_v(a));
        assert(kept_v(a) + kept_v(b) =~= kept_v(a));
    } else {
        assert((a + b).drop_last() =~= a + b.drop_last());
        assert((a + b).last() == b.last());
        styles_keep_their_order(a, b.drop_last());
        assert(inline_styles_v(a + b) =~= inline_styles_v(a) + inline_styles_v(b));
        assert(kept_v(a + b) =~= kept_v(a) + kept_v(b));
    }
}

/// A style is kept up to date as a whole where it changes, and set once where it
/// does not.
pub proof fn a_style_is_set_as_a_whole(
    elem: Seq<char>,
    value: ExprV,
    dynamic: bool,
    result: ResultV,
    ctx: ContextV,
)
    requires
        is_variable(elem),
    ensures
        ({
            let done = whole_style_v(elem, value, dynamic, result, ctx).0;
            &&& dynamic ==> binds(result, done, elem, "style"@, value)
            &&& !dynamic ==> does(result, done) && calls_helper(done.exprs.last(), "style"@, 2)
                && is_name(arg(done.exprs.last(), 0), elem) && arg(done.exprs.last(), 1) == value
        }),
{
    a_variable_is_itself(elem);
    let done = whole_style_v(elem, value, dynamic, result, ctx).0;
    one_more_binding(result, elem, "style"@, value);
    if !dynamic {
        one_more_expr(result, done.exprs.last());
    }
}

/// A style property that stands alone: kept up to date where it changes, and set
/// once where it does not.
pub open spec fn is_set_alone(
    prop: Prop,
    marked: bool,
    elem: Seq<char>,
    done: ResultV,
    source: Seq<char>,
    marker: Seq<char>,
) -> bool {
    match single_v(prop, marked, source, marker) {
        None => true,
        Some((name, value, dynamic)) => if dynamic {
            exists|k: int|
                0 <= k < done.dynamics.len() && (#[trigger] done.dynamics[k]).elem == elem
                    && done.dynamics[k].key == "style:"@ + name && done.dynamics[k].value == value
        } else {
            exists|k: int|
                0 <= k < done.exprs.len() && sets_by(
                    #[trigger] done.exprs[k],
                    "setStyleProperty"@,
                    elem,
                    name,
                    value,
                )
        },
    }
}

/// Every style property that is set alone is.
pub proof fn styles_are_set_alone(
    props: Seq<Prop>,
    marked: bool,
    elem: Seq<char>,
    result: ResultV,
    source: Seq<char>,
    marker: Seq<char>,
)
    requires
        is_variable(elem),
    ensures
        ({
            let done = singles_v(props, marked, elem, result, source, marker);
            &&& is_kept(result, done)
            &&& forall|i: int|
                0 <= i < props.len() ==> is_set_alone(
                    #[trigger] props[i],
                    marked,
                    elem,
                    done,
                    source,
                    marker,
                )
        }),
    decreases props.len(),
{
    a_variable_is_itself(elem);
    let done = singles_v(props, marked, elem, result, source, marker);
    if props.len() == 0 {
        assert(done.exprs.take(result.exprs.len() as int) =~= result.exprs);
        assert(done.dynamics.take(result.dynamics.len() as int) =~= result.dynamics);
    } else {
        let front = props.drop_last();
        styles_are_set_alone(front, marked, elem, result, source, marker);
        let head = singles_v(front, marked, elem, result, source, marker);
        assert(done.exprs.take(result.exprs.len() as int) =~= head.exprs.take(
            result.exprs.len() as int,
        ));
        assert(done.dynamics.take(result.dynamics.len() as int) =~= head.dynamics.take(
            result.dynamics.len() as int,
        ));
        assert forall|i: int| 0 <= i < props.len() implies is_set_alone(
            #[trigger] props[i],
            marked,
            elem,
            done,
            source,
            marker,
        ) by {
            if i < front.len() {
                assert(front[i] == props[i]);
                assert(is_set_alone(front[i], marked, elem, head, source, marker));
                if let Some((name, value, dynamic)) = single_v(props[i], marked, source, marker) {
                    if dynamic {
                        let k = choose|k: int|
                            0 <= k < head.dynamics.len() && (
                            #[trigger] head.dynamics[k]).elem == elem && head.dynamics[k].key
                                == "style:"@ + name && head.dynamics[k].value == value;
                        assert(done.dynamics[k] == head.dynamics[k]);
                    } else {
                        let k = choose|k: int|
                            0 <= k < head.exprs.len() && sets_by(
                                #[trigger] head.exprs[k],
                                "setStyleProperty"@,
                                elem,
                                name,
                                value,
                            );
                        assert(done.exprs[k] == head.exprs[k]);
                    }
                }
            } else {
                if let Some((name, value, dynamic)) = single_v(props[i], marked, source, marker) {
                    if dynamic {
                        assert(done.dynamics[head.dynamics.len() as int].elem == elem);
                    } else {
                        assert(sets_by(
                            done.exprs[head.exprs.len() as int],
                            "setStyleProperty"@,
                            elem,
                            name,
                            value,
                        ));
                    }
                }
            }
        }
    }
}

// ---------------------------------------------------------------------------
// Content
// ---------------------------------------------------------------------------

/// An expression sets the content of an element.
pub open spec fn sets_content(
    set: ExprV,
    elem: Seq<char>,
    key: Seq<char>,
    value: ExprV,
    hydratable: bool,
) -> bool {
    if hydratable {
        sets_by(set, "setProperty"@, elem, key, value)
    } else {
        assigns_to(set, elem, key, value)
    }
}

/// The content is set on the element, under its key and to its value.
pub proof fn a_content_is_set(
    key: Seq<char>,
    elem: Seq<char>,
    value: ExprV,
    ctx: ContextV,
    hydratable: bool,
)
    requires
        is_variable(elem),
    ensures
        sets_content(inner_set_v(key, elem, value, ctx, hydratable).1, elem, key, value, hydratable),
{
    a_variable_is_itself(elem);
}

/// A content that changes is set by an effect, from its value or from what the
/// effect computed; any other is set once.
pub proof fn a_content_is_kept_current(
    attr: JsxAttribute,
    span: Span,
    expr: Expr,
    elem: Seq<char>,
    result: ResultV,
    ctx: ContextV,
    options: TransformOptions,
)
    requires
        is_variable(elem),
    ensures
        ({
            let done = inner_expr_v(attr, span, expr, elem, result, ctx, options).0;
            let last = done.exprs.last();
            let marked = static_marker(ctx.source, span, options.static_marker@);
            &&& does(result, done)
            &&& if !marked && expr.facts.dynamic && wraps_effects(options) {
                if expr.facts.condition is Some {
                    &&& calls_helper(last, "effect"@, 2)
                    &&& is_thunk(arg(last, 0), expr@)
                    &&& arg(last, 1).kind matches KindV::Arrow { is_async, params, expression, body }
                        && !is_async && !expression && params == seq![PatternV::Ident("_v$"@)]
                        && body.len() == 1 && (body[0] matches StmtV::Expr(set) && exists|
                        value: ExprV,
                    |
                        is_name(value, "_v$"@) && #[trigger] sets_content(
                            set,
                            elem,
                            attr.key@,
                            value,
                            options.hydratable,
                        ))
                } else {
                    calls_helper(last, "effect"@, 1) && exists|set: ExprV|
                        #[trigger] is_thunk(arg(last, 0), set) && sets_content(
                            set,
                            elem,
                            attr.key@,
                            expr@,
                            options.hydratable,
                        )
                }
            } else {
                exists|value: ExprV|
                    value.kind == expr@.kind && #[trigger] sets_content(
                        last,
                        elem,
                        attr.key@,
                        value,
                        options.hydratable,
                    )
            }
        }),
{
    a_variable_is_itself(elem);
    let key = attr.key@;
    let done = inner_expr_v(attr, span, expr, elem, result, ctx, options).0;
    let marked = static_marker(ctx.source, span, options.static_marker@);
    one_more_expr(result, done.exprs.last());
    let value = crate::attributes::cloned_v(expr, marked);
    let late = ctx.register("effect"@);
    a_content_is_set(key, elem, el_v("_v$"@), late, options.hydratable);
    a_content_is_set(key, elem, expr@, late, options.hydratable);
    a_content_is_set(key, elem, value, ctx, options.hydratable);
    let set = inner_set_v(key, elem, expr@, late, options.hydratable).1;
    assert(is_thunk(crate::make::thunk_v(no_span(), set), set));
}

/// A text that is given as content is set once; as HTML it is escaped first.
pub proof fn a_given_content_is_set(
    attr: JsxAttribute,
    elem: Seq<char>,
    result: ResultV,
    ctx: ContextV,
    options: TransformOptions,
)
    requires
        is_variable(elem),
        attr.value is Str,
    ensures
        ({
            let done = inner_content_v(attr, elem, result, ctx, options).0;
            let given = attr.value->Str_value@;
            does(result, done) && exists|value: ExprV|
                #[trigger] sets_content(
                    done.exprs.last(),
                    elem,
                    attr.key@,
                    value,
                    options.hydratable,
                ) && (value.kind matches KindV::Str(text) && if attr.key@ == "innerHTML"@ {
                    unescaped(text) == given
                } else {
                    text == given
                })
        }),
{
    reveal(inner_content_v);
    let done = inner_content_v(attr, elem, result, ctx, options).0;
    let given = attr.value->Str_value@;
    one_more_expr(result, done.exprs.last());
    an_escaped_text_reads_back(given, false);
    let text = if attr.key@ == "innerHTML"@ {
        escape_html_v(given, false)
    } else {
        given
    };
    a_content_is_set(
        attr.key@,
        elem,
        crate::make::str_v(no_span(), text),
        ctx,
        options.hydratable,
    );
}

/// A text content that changes is kept up to date on the text node of the
/// element, which stands in the template.
pub proof fn a_text_content_is_kept_current(
    attr: JsxAttribute,
    expr: Expr,
    elem: Seq<char>,
    state: AttrStateV,
)
    requires
        is_variable(elem),
    ensures
        ({
            let done = text_content_v(attr, expr, elem, state);
            let node = state.ctx.uid("el$"@).1;
            &&& done.placeholder
            &&& done.result.declarations.len() == state.result.declarations.len() + 1
            &&& done.result.declarations.last().pattern == PatternV::Ident(node)
            &&& reads_of(done.result.declarations.last().init, elem, "firstChild"@)
            &&& binds(state.result, done.result, node, attr.key@, expr@)
        }),
{
    a_variable_is_itself(elem);
    let done = text_content_v(attr, expr, elem, state);
    assert(done.result.dynamics.drop_last() =~= state.result.dynamics);
}

} // verus!
