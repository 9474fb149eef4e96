//! Which way each attribute of an element goes.

use crate::ast::{no_span, Expr, ExprV, JsxAttribute, JsxValue, Kind, KindV, PatternV, Span};
use crate::attribute::{
    attribute_v, bool_of, late_attribute_v, late_effect_v, regular_v, runtime_expr_v, set_once_v,
    source_v, template_value, AttrStateV,
};
use crate::attributes::{el_v, insert_value_v, is_static_conditional, wraps_effects};
use crate::effect_laws::{a_value_is_set, block_of, params_of, sets};
use crate::handler_laws::a_variable_is_itself;
use crate::handlers::{directive_v, event_v, ref_v};
use crate::ir::{ContextV, ResultV};
use crate::marker::static_marker_anywhere;
use crate::options::TransformOptions;
use crate::peel::{peeled, plain_call};
use crate::properties::{bool_attr_v, class_namespace_v, prop_v, style_namespace_v};
use crate::property_laws::{binds, does};
use crate::shape::{arg, callee, calls_helper, is_flag, is_name, is_text, is_thunk};
use crate::style::style_v;
use crate::text::starts_with;
use crate::vocabulary::Vocabulary;
use vstd::prelude::*;

verus! {

/// A result has one more expression, which sets a value of the element.
pub open spec fn sets_once(
    before: ResultV,
    after: ResultV,
    elem: Seq<char>,
    key: Seq<char>,
    value: ExprV,
    options: TransformOptions,
    vocabulary: Vocabulary,
) -> bool {
    does(before, after) && sets(
        after.exprs.last(),
        before.binding(elem, key, value),
        value,
        None,
        options.hydratable,
        vocabulary,
    )
}

/// A value that does not change is set once, on the element and under the key.
pub proof fn a_fixed_value_is_set_once(
    span: Span,
    key: Seq<char>,
    value: ExprV,
    elem: Seq<char>,
    result: ResultV,
    ctx: ContextV,
    options: TransformOptions,
    vocabulary: Vocabulary,
)
    ensures
        sets_once(
            result,
            set_once_v(span, key, value, elem, result, ctx, options, vocabulary).0,
            elem,
            key,
            value,
            options,
            vocabulary,
        ),
{
    let done = set_once_v(span, key, value, elem, result, ctx, options, vocabulary).0;
    assert(done.exprs.drop_last() =~= result.exprs);
    a_value_is_set(
        span,
        result.binding(elem, key, value),
        value,
        None,
        options.hydratable,
        vocabulary,
    );
}

/// What is computed for an effect or a property gives the expression: by the
/// function that a plain call calls, or by one that returns it.
pub proof fn a_source_gives_its_expression(expr: Expr)
    ensures
        plain_call(expr) is None ==> is_thunk(source_v(expr), expr@),
        plain_call(expr) is Some ==> expr@.kind is Call && *expr@.kind->Call_callee == source_v(expr)
            && expr@.kind->Call_args.len() == 0,
{
    if let Kind::Call { callee, args, .. } = &expr.kind {
        assert(expr@.kind is Call);
        assert(*expr@.kind->Call_callee == (**callee)@);
        assert(args@.len() == 0 ==> crate::ast::element_values(args@).len() == 0);
    }
}

/// The value and the state of a form control are set when all else is done, by an
/// effect of their own that sets what it computed.
pub proof fn a_form_control_is_set_late(
    attr: JsxAttribute,
    expr: Expr,
    elem: Seq<char>,
    state: AttrStateV,
    options: TransformOptions,
    vocabulary: Vocabulary,
)
    ensures
        ({
            let done = late_effect_v(attr, expr, elem, state, options, vocabulary).result;
            let effect = done.post_exprs.last();
            &&& done.post_exprs.len() == state.result.post_exprs.len() + 1
            &&& done.post_exprs.drop_last() == state.result.post_exprs
            &&& done.exprs == state.result.exprs && done.dynamics == state.result.dynamics
            &&& calls_helper(effect, "effect"@, 2)
            &&& arg(effect, 0) == source_v(expr)
            &&& arg(effect, 1).kind matches KindV::Arrow { is_async, expression, .. } && !is_async
                && !expression
            &&& params_of(arg(effect, 1)) == seq![PatternV::Ident("_v$"@)]
            &&& block_of(arg(effect, 1)).len() == 1
            &&& block_of(arg(effect, 1))[0] is Expr
            &&& sets_what_was_computed(
                block_of(arg(effect, 1))[0]->Expr_0,
                state.result,
                elem,
                attr.key@,
                expr@,
                options,
                vocabulary,
            )
        }),
{
    a_variable_is_itself(elem);
    let done = late_effect_v(attr, expr, elem, state, options, vocabulary).result;
    assert(done.post_exprs.drop_last() =~= state.result.post_exprs);
    let binding = state.result.binding(elem, attr.key@, expr@);
    a_value_is_set(attr.span, binding, el_v("_v$"@), None, options.hydratable, vocabulary);
    assert(params_of(arg(done.post_exprs.last(), 1)) =~= seq![PatternV::Ident("_v$"@)]);
}

/// An expression sets the value that the callback of an effect was given.
pub open spec fn sets_what_was_computed(
    set: ExprV,
    result: ResultV,
    elem: Seq<char>,
    key: Seq<char>,
    expr: ExprV,
    options: TransformOptions,
    vocabulary: Vocabulary,
) -> bool {
    exists|value: ExprV|
        is_name(value, "_v$"@) && #[trigger] sets(
            set,
            result.binding(elem, key, expr),
            value,
            None,
            options.hydratable,
            vocabulary,
        )
}

/// A value of an attribute that changes is kept up to date, late where it is that
/// of a form control; one that does not, or that is marked as static, is set
/// once.
pub proof fn a_value_is_kept_current(
    attr: JsxAttribute,
    span: Span,
    expr: Expr,
    elem: Seq<char>,
    state: AttrStateV,
    options: TransformOptions,
    vocabulary: Vocabulary,
)
    ensures
        ({
            let done = runtime_expr_v(attr, span, expr, elem, state, options, vocabulary);
            let key = attr.key@;
            let marked = static_marker_anywhere(state.ctx.source, span, options.static_marker@);
            let control = key == "value"@ || key == "checked"@;
            &&& marked ==> sets_once(
                state.result,
                done.result,
                elem,
                key,
                ExprV { span: no_span(), ..expr@ },
                options,
                vocabulary,
            )
            &&& !marked && expr.facts.dynamic && (!control || !wraps_effects(options)) ==> binds(
                state.result,
                done.result,
                elem,
                key,
                expr@,
            )
            &&& !marked && expr.facts.dynamic && control && wraps_effects(options)
                ==> done.result.post_exprs.len() == state.result.post_exprs.len() + 1
                && calls_helper(done.result.post_exprs.last(), "effect"@, 2)
            &&& !marked && !expr.facts.dynamic && key != "class"@ && key != "style"@ ==> sets_once(
                state.result,
                done.result,
                elem,
                key,
                expr@,
                options,
                vocabulary,
            )
        }),
{
    let key = attr.key@;
    let marked = static_marker_anywhere(state.ctx.source, span, options.static_marker@);
    let value = crate::attributes::cloned_v(expr, marked);
    a_fixed_value_is_set_once(
        attr.span,
        key,
        value,
        elem,
        state.result,
        state.ctx,
        options,
        vocabulary,
    );
    let bound = state.result.with_binding(state.result.binding(elem, key, expr@));
    assert(bound.dynamics.drop_last() =~= state.result.dynamics);
    a_form_control_is_set_late(attr, expr, elem, state, options, vocabulary);
}

/// A known value of an attribute goes into the template, under the name that HTML
/// writes; one of a child property is set, and so is any that is not known.
pub proof fn a_regular_attribute(
    attr: JsxAttribute,
    elem: Seq<char>,
    state: AttrStateV,
    options: TransformOptions,
    vocabulary: Vocabulary,
)
    ensures
        ({
            let done = regular_v(attr, elem, state, options, vocabulary);
            let key = attr.key@;
            let child = vocabulary.is_child_property(key);
            let name = vocabulary.written(key);
            match attr.value {
                JsxValue::Str { decoded, .. } => if child {
                    exists|text: ExprV|
                        is_text(text, decoded@) && #[trigger] sets_once(
                            state.result,
                            done.result,
                            elem,
                            key,
                            text,
                            options,
                            vocabulary,
                        )
                } else {
                    done == state.inlined(name, Some(decoded@), options)
                },
                JsxValue::Absent => if child {
                    exists|yes: ExprV|
                        is_flag(yes, true) && #[trigger] sets_once(
                            state.result,
                            done.result,
                            elem,
                            key,
                            yes,
                            options,
                            vocabulary,
                        )
                } else {
                    done == state.inlined(key, None, options)
                },
                JsxValue::Container { span, expr: Some(expr), .. } => {
                    let known = template_value(*expr);
                    &&& !child && known is Some ==> done == state.inlined(name, known->0, options)
                    &&& !child && known is None && bool_of(*expr) == Some(true) ==> done
                        == state.inlined(name, None, options)
                    &&& !child && known is None && bool_of(*expr) == Some(false) ==> done == state
                    &&& child || (known is None && bool_of(*expr) is None) ==> done
                        == runtime_expr_v(attr, span, *expr, elem, state, options, vocabulary)
                },
                _ => done == state,
            }
        }),
{
    reveal(regular_v);
    let key = attr.key@;
    match attr.value {
        JsxValue::Str { decoded, .. } => {
            let text = crate::make::str_v(attr.span, decoded@);
            a_fixed_value_is_set_once(
                attr.span,
                key,
                text,
                elem,
                state.result,
                state.ctx,
                options,
                vocabulary,
            );
        },
        JsxValue::Absent => {
            let yes = crate::make::bool_v(attr.span, true);
            a_fixed_value_is_set_once(
                attr.span,
                key,
                yes,
                elem,
                state.result,
                state.ctx,
                options,
                vocabulary,
            );
        },
        _ => {},
    }
}

/// A value goes into the template as what it evaluates to, or as the text that
/// was written.
pub proof fn a_template_value_is_the_value(expr: Expr)
    ensures
        expr.facts.static_text matches Some(text) ==> template_value(expr) == Some(
            Some(text@.text()),
        ),
        expr.facts.static_text is None ==> (peeled(expr).kind matches Kind::Str(text)
            ==> template_value(expr) == Some(Some(text@))),
        expr.facts.static_text is None ==> (peeled(expr).kind matches Kind::Num(number)
            ==> template_value(expr) == Some(Some(number.text@))),
        expr.facts.static_text is None && !(peeled(expr).kind is Str) && !(peeled(expr).kind is Num)
            ==> template_value(expr) is None,
        peeled(expr).kind matches Kind::Bool(value) ==> bool_of(expr) == Some(value),
        !(peeled(expr).kind is Bool) ==> bool_of(expr) is None,
{
}

/// What is inserted is the function that a plain call calls, the expression
/// itself where it does not change, and else a function that gives it.
pub proof fn an_inserted_value_gives_its_expression(expr: Expr, options: TransformOptions)
    ensures
        ({
            let out = insert_value_v(expr, options);
            &&& plain_call(expr) matches Some(callee) ==> out == callee@
            &&& plain_call(expr) is None && !expr.facts.dynamic ==> out == expr@
            &&& plain_call(expr) is None && is_static_conditional(expr) ==> out == expr@
            &&& plain_call(expr) is None && !is_static_conditional(expr) && expr.facts.dynamic
                && expr.facts.condition is None ==> is_thunk(out, expr@)
        }),
{
}

/// A key goes the way that its prefix, or its name, says.
pub proof fn a_key_says_the_way(
    attr: JsxAttribute,
    elem: Option<Seq<char>>,
    has_children: bool,
    state: AttrStateV,
    options: TransformOptions,
    vocabulary: Vocabulary,
)
    requires
        elem is Some,
        !state.result.is_svg,
        !options.hydratable,
    ensures
        ({
            let done = attribute_v(attr, elem, has_children, state, options, vocabulary);
            let key = attr.key@;
            let id = elem->0;
            &&& key == "ref"@ ==> (done.result, done.ctx) == ref_v(
                attr,
                id,
                state.result,
                state.ctx,
            )
            &&& starts_with(key, "on:"@) && !(attr.value is Str) ==> (done.result, done.ctx)
                == event_v(attr, id, state.result, state.ctx, options, vocabulary)
            &&& starts_with(key, "on"@) && !key.contains(':') && !(attr.value is Str) ==> (
            done.result, done.ctx) == event_v(
                attr,
                id,
                state.result,
                state.ctx,
                options,
                vocabulary,
            )
            &&& starts_with(key, "use:"@) ==> (done.result, done.ctx) == directive_v(
                attr,
                id,
                state.result,
                state.ctx,
            )
            &&& starts_with(key, "prop:"@) ==> done.result == prop_v(attr, id, state.result)
                && done.ctx == state.ctx
            &&& starts_with(key, "bool:"@) ==> (done.result, done.ctx, done.spacing)
                == bool_attr_v(attr, id, state.result, state.ctx, options, state.spacing)
            &&& starts_with(key, "class:"@) ==> done.result == class_namespace_v(
                attr,
                id,
                state.result,
            )
            &&& starts_with(key, "style:"@) ==> (done.result, done.ctx) == style_namespace_v(
                attr,
                id,
                state.result,
                state.ctx,
            )
            &&& key == "style"@ ==> (done.result, done.ctx, done.spacing) == style_v(
                attr,
                elem,
                state.result,
                state.ctx,
                options,
                state.spacing,
            )
        }),
{
    reveal(attribute_v);
    reveal(late_attribute_v);
    reveal_strlit("ref");
    reveal_strlit("on:");
    reveal_strlit("on");
    reveal_strlit("use:");
    reveal_strlit("prop:");
    reveal_strlit("bool:");
    reveal_strlit("class:");
    reveal_strlit("style:");
    reveal_strlit("style");
    reveal_strlit("class");
    reveal_strlit("classList");
    assert("ref"@[0] == 'r' && "ref"@.len() == 3);
    assert("style"@[0] == 's' && "style"@.len() == 5);
    assert("class"@[0] == 'c' && "class"@.len() == 5);
    assert("classList"@[0] == 'c' && "classList"@.len() == 9 && "classList"@[5] == 'L');
    let key = attr.key@;
    if starts_with(key, "on"@) {
        assert(key.take(2)[0] == 'o');
    }
    if starts_with(key, "on:"@) {
        assert(key.take(3)[0] == 'o');
    }
    if starts_with(key, "use:"@) {
        assert(key.take(4)[0] == 'u');
    }
    if starts_with(key, "prop:"@) {
        assert(key.take(5)[0] == 'p');
    }
    if starts_with(key, "bool:"@) {
        assert(key.take(5)[0] == 'b');
    }
    if starts_with(key, "class:"@) {
        assert(key.take(6)[0] == 'c');
        assert(key.take(6)[5] == ':');
    }
    if starts_with(key, "style:"@) {
        assert(key.take(6)[0] == 's');
        assert(key.take(6)[5] == ':');
    }
}

} // verus!
