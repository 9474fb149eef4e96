//! What the code that keeps an element up to date does.

use crate::ast::{BinaryOp, ExprV, KindV, LogicalOp, PatternV, PropV, Span, StmtV};
use crate::ir::{BindingV, ContextV};
use crate::output::{
    bound_value, dynamics_v, effect_source_v, multi_effect_v, numbered_id, single_effect_v,
    update_v,
};
use crate::shape::{
    arg, assigns_to, callee, calls, calls_helper, is_call, is_cast, is_name, is_text, is_thunk,
    holds_value, may_read_of, reads_of,
};
use crate::template::{namespace_of, set_attr_v};
use crate::text::{ascii_lowercase, starts_with};
use crate::vocabulary::Vocabulary;
use vstd::prelude::*;

verus! {

// ---------------------------------------------------------------------------
// One value
// ---------------------------------------------------------------------------

/// A call of a method of `object.property`.
pub open spec fn calls_method(
    expr: ExprV,
    name: Seq<char>,
    property: Seq<char>,
    method: Seq<char>,
    n: nat,
) -> bool {
    &&& is_call(expr, n)
    &&& callee(expr).kind matches KindV::Member { object, property: p, optional } && p == method
        && !optional && reads_of(*object, name, property)
}

/// The statement sets something of an element by a helper that takes the
/// element, a name and the value.
pub open spec fn sets_by(
    expr: ExprV,
    helper: Seq<char>,
    elem: Seq<char>,
    name: Seq<char>,
    value: ExprV,
) -> bool {
    &&& calls_helper(expr, helper, 3)
    &&& is_name(arg(expr, 0), elem)
    &&& is_text(arg(expr, 1), name)
    &&& arg(expr, 2) == value
}

/// The statement sets the whole of something of an element by a helper that
/// takes the element and the value, and the previous value where it is at hand.
pub open spec fn sets_whole(
    expr: ExprV,
    helper: Seq<char>,
    elem: Seq<char>,
    value: ExprV,
    prev: Option<ExprV>,
) -> bool {
    &&& calls_helper(expr, helper, if prev is Some { 3 } else { 2 })
    &&& is_name(arg(expr, 0), elem)
    &&& arg(expr, 1) == value
    &&& prev matches Some(prev) ==> arg(expr, 2) == prev
}

/// The statement assigns a value to a property of an element, and where `again`
/// says so once more when the microtasks run.
pub open spec fn sets_property(
    expr: ExprV,
    elem: Seq<char>,
    name: Seq<char>,
    value: ExprV,
    again: bool,
) -> bool {
    if again {
        expr.kind matches KindV::Logical { op, left, right } && op == LogicalOp::Or && assigns_to(
            *right,
            elem,
            name,
            value,
        ) && calls(*left, "queueMicrotask"@, 1) && is_thunk(arg(*left, 0), *right)
    } else {
        assigns_to(expr, elem, name, value)
    }
}

/// What stands behind a prefix.
pub open spec fn rest(key: Seq<char>, prefix: Seq<char>) -> Seq<char> {
    key.skip(prefix.len() as int)
}

/// The statement sets the value of a binding on its element: what the key says
/// is set, to this value.
pub open spec fn sets(
    set: ExprV,
    binding: BindingV,
    value: ExprV,
    prev: Option<ExprV>,
    hydratable: bool,
    vocabulary: Vocabulary,
) -> bool {
    let key = binding.key;
    let elem = binding.elem;
    if starts_with(key, "bool:"@) {
        sets_by(set, "setBoolAttribute"@, elem, rest(key, "bool:"@), value)
    } else if starts_with(key, "style:"@) {
        sets_by(set, "setStyleProperty"@, elem, rest(key, "style:"@), value)
    } else if starts_with(key, "class:"@) {
        calls_method(set, elem, "classList"@, "toggle"@, 2) && is_text(
            arg(set, 0),
            rest(key, "class:"@),
        ) && arg(set, 1) == value
    } else if starts_with(key, "prop:"@) {
        assigns_to(set, elem, rest(key, "prop:"@), value)
    } else if key == "class"@ {
        sets_whole(set, "className"@, elem, value, prev)
    } else if key == "style"@ {
        sets_whole(set, "style"@, elem, value, prev)
    } else if key == "classList"@ {
        sets_whole(set, "classList"@, elem, value, None)
    } else if key == "textContent"@ || key == "innerText"@ {
        if hydratable {
            sets_by(set, "setProperty"@, elem, "data"@, value)
        } else {
            assigns_to(set, elem, "data"@, value)
        }
    } else {
        sets_attribute(set, binding, value, hydratable, vocabulary)
    }
}

/// The statement sets an attribute of the name of the key, in its namespace
/// where it has one, or the property of the element that stands for it.
pub open spec fn sets_attribute(
    set: ExprV,
    binding: BindingV,
    value: ExprV,
    hydratable: bool,
    vocabulary: Vocabulary,
) -> bool {
    let key = binding.key;
    let is_child = vocabulary.is_child_property(key);
    let name = if is_child {
        key
    } else {
        vocabulary.property_name(key, binding.tag_name)
    };
    match namespace_of(key, vocabulary) {
        Some(ns) => {
            &&& calls_helper(set, "setAttributeNS"@, 4)
            &&& is_name(arg(set, 0), binding.elem)
            &&& is_text(arg(set, 1), ns)
            &&& is_text(arg(set, 2), key)
            &&& arg(set, 3) == value
        },
        None => if !is_child && !vocabulary.is_property(key) {
            sets_by(set, "setAttribute"@, binding.elem, key, value)
        } else if hydratable {
            sets_by(set, "setProperty"@, binding.elem, name, value)
        } else {
            sets_property(
                set,
                binding.elem,
                name,
                value,
                key == "value"@ && ascii_lowercase(binding.tag_name) == "select"@,
            )
        },
    }
}

/// What is set of an element is the value, on the element of the binding and
/// under the name that the key says.
pub proof fn a_value_is_set(
    span: Span,
    binding: BindingV,
    value: ExprV,
    prev: Option<ExprV>,
    hydratable: bool,
    vocabulary: Vocabulary,
)
    ensures
        sets(
            set_attr_v(span, binding, value, prev, hydratable, vocabulary),
            binding,
            value,
            prev,
            hydratable,
            vocabulary,
        ),
{
    reveal_strlit("select");
    assert(ascii_lowercase("select"@) =~= "select"@);
}

/// A key without a prefix is set as a whole: the element, the value, and the
/// previous value where it is at hand.
pub proof fn a_class_is_set_as_a_whole(
    span: Span,
    binding: BindingV,
    value: ExprV,
    prev: Option<ExprV>,
    hydratable: bool,
    vocabulary: Vocabulary,
)
    ensures
        ({
            let set = set_attr_v(span, binding, value, prev, hydratable, vocabulary);
            &&& binding.key == "class"@ ==> sets_whole(
                set,
                "className"@,
                binding.elem,
                value,
                prev,
            )
            &&& binding.key == "style"@ ==> sets_whole(set, "style"@, binding.elem, value, prev)
        }),
{
    a_value_is_set(span, binding, value, prev, hydratable, vocabulary);
    reveal_strlit("bool:");
    reveal_strlit("style:");
    reveal_strlit("class:");
    reveal_strlit("prop:");
    reveal_strlit("class");
    reveal_strlit("style");
    assert("class"@[0] == 'c' && "style"@[0] == 's');
    let key = binding.key;
    if starts_with(key, "bool:"@) {
        assert(key.take(5)[0] == 'b');
    }
    if starts_with(key, "prop:"@) {
        assert(key.take(5)[0] == 'p');
    }
    assert("class"@.len() == 5 && "style"@.len() == 5);
}

/// The namespace of a key is the one that the table has for what stands before
/// the first colon.
pub proof fn a_namespace_is_that_of_the_prefix(key: Seq<char>, vocabulary: Vocabulary)
    ensures
        !key.contains(':') ==> namespace_of(key, vocabulary) is None,
        namespace_of(key, vocabulary) matches Some(ns) ==> exists|i: int, n: int|
            0 <= i < vocabulary.svg_namespaces@.len() && 0 <= n < key.len() && key[n] == ':'
                && !key.take(n).contains(':') && (#[trigger] vocabulary.svg_namespaces@[i]).0@
                == #[trigger] key.take(n) && vocabulary.svg_namespaces@[i].1@ == ns,
{
    if key.contains(':') {
        let n = crate::text::first_index(key, ':');
        crate::text_laws::first_index_is_first(key, ':');
        entry_is_listed(vocabulary.svg_namespaces@, key.take(n));
    }
}

proof fn entry_is_listed(table: Seq<(String, String)>, key: Seq<char>)
    ensures
        crate::vocabulary::entry(table, key) matches Some(value) ==> exists|i: int|
            0 <= i < table.len() && (#[trigger] table[i]).0@ == key && table[i].1@ == value,
    decreases table.len(),
{
    if table.len() > 0 && table[0].0@ != key {
        entry_is_listed(table.skip(1), key);
        if let Some(value) = crate::vocabulary::entry(table.skip(1), key) {
            let i = choose|i: int|
                0 <= i < table.skip(1).len() && (#[trigger] table.skip(1)[i]).0@ == key
                    && table.skip(1)[i].1@ == value;
            assert(table[i + 1].0@ == key && table[i + 1].1@ == value);
        }
    }
}

// ---------------------------------------------------------------------------
// Effects
// ---------------------------------------------------------------------------

/// The key of a binding is one whose helper takes the previous value.
pub open spec fn takes_prev(binding: BindingV) -> bool {
    binding.key == "class"@ || binding.key == "style"@
}

/// The helper of such a key.
pub open spec fn whole_helper(binding: BindingV) -> Seq<char> {
    if binding.key == "class"@ {
        "className"@
    } else {
        "style"@
    }
}

/// An expression is the arrow function with these parameters and this block.
pub open spec fn is_callback(expr: ExprV, params: Seq<PatternV>, body: Seq<StmtV>) -> bool {
    expr.kind matches KindV::Arrow { is_async, params: p, expression, body: b } && !is_async
        && !expression && p == params && b == body
}

/// The parameters of an arrow function.
pub open spec fn params_of(expr: ExprV) -> Seq<PatternV> {
    expr.kind->Arrow_params
}

/// The block of an arrow function.
pub open spec fn block_of(expr: ExprV) -> Seq<StmtV> {
    expr.kind->Arrow_body
}

/// The value of a binding as it is watched: itself, or cast to a boolean where a
/// class is toggled by it.
pub open spec fn is_watched(watched: ExprV, binding: BindingV) -> bool {
    if starts_with(binding.key, "class:"@) && !(binding.value.kind is Bool || binding.value.kind is Unary) {
        is_cast(watched, binding.value)
    } else {
        watched == binding.value
    }
}

/// A class is toggled by a boolean; every other value is taken as it is.
pub proof fn a_bound_value_is_the_value(span: Span, binding: BindingV)
    ensures
        is_watched(bound_value(span, binding), binding),
{
}

/// A function returns an expression each time that it is called.
pub open spec fn computes(function: ExprV, expr: ExprV) -> bool {
    is_thunk(function, expr) || (is_call(expr, 0) && callee(expr) == function) || (
    expr.kind matches KindV::Call { callee, args, .. } && args.len() == 0 && *callee == function)
}

/// What an effect tracks is computed again when it runs.
pub proof fn a_source_computes_its_expression(span: Span, expr: ExprV)
    ensures
        computes(effect_source_v(span, expr), expr),
        !(expr.kind is Call) ==> is_thunk(effect_source_v(span, expr), expr),
{
}

/// The statement brings a binding up to date, from the name that holds its value
/// and the property of `_p$` that holds the value before.
pub open spec fn updates(
    stmt: StmtV,
    binding: BindingV,
    name: Seq<char>,
    hydratable: bool,
    vocabulary: Vocabulary,
) -> bool {
    stmt matches StmtV::Expr(expr) && if takes_prev(binding) {
        calls_helper(expr, whole_helper(binding), 3) && is_name(arg(expr, 0), binding.elem)
            && is_name(arg(expr, 1), name) && may_read_of(arg(expr, 2), "_p$"@, name)
    } else {
        expr.kind matches KindV::Logical { op, left, right } && op == LogicalOp::And && (
        left.kind matches KindV::Binary { op, left: now, right: before } && op
            == BinaryOp::StrictInequality && is_name(*now, name) && may_read_of(
            *before,
            "_p$"@,
            name,
        ) && sets(*right, binding, *now, None, hydratable, vocabulary))
    }
}

/// The update of a class or of a style is a call of its helper with the element,
/// the value that the callback was given and the value before, in this order; any
/// other update sets the value that the callback was given, where it is another
/// than before.
pub proof fn an_update_sets_what_is_new(
    span: Span,
    binding: BindingV,
    index: nat,
    hydratable: bool,
    vocabulary: Vocabulary,
)
    ensures
        updates(
            update_v(span, binding, index, hydratable, vocabulary),
            binding,
            numbered_id(index),
            hydratable,
            vocabulary,
        ),
        takes_prev(binding) ==> {
            let expr = update_v(span, binding, index, hydratable, vocabulary)->Expr_0;
            &&& calls_helper(
                expr,
                whole_helper(binding),
                3,
            )
            &&& is_name(arg(expr, 0), binding.elem)
            &&& is_name(arg(expr, 1), numbered_id(index))
            &&& may_read_of(arg(expr, 2), "_p$"@, numbered_id(index))
        },
{
    let id = numbered_id(index);
    let now = crate::make::ident_v(span, id);
    let before = crate::make::optional_member_v(span, crate::make::ident_v(span, "_p$"@), id);
    if takes_prev(binding) {
        a_class_is_set_as_a_whole(span, binding, now, Some(before), hydratable, vocabulary);
    } else {
        a_value_is_set(span, binding, now, None, hydratable, vocabulary);
    }
}

/// A property holds the value of a binding under a name.
pub open spec fn watches(prop: PropV, name: Seq<char>, binding: BindingV) -> bool {
    prop matches PropV::Named { value, .. } && holds_value(prop, name, value) && is_watched(
        value,
        binding,
    )
}

/// An effect of several bindings computes an object with one property for each,
/// and hands it to a function that takes it apart under the same names and brings
/// the bindings up to date one by one.
pub proof fn an_effect_of_several(
    span: Span,
    bindings: Seq<BindingV>,
    hydratable: bool,
    vocabulary: Vocabulary,
)
    ensures
        ({
            let effect = multi_effect_v(span, bindings, hydratable, vocabulary);
            let source = arg(effect, 0);
            let callback = arg(effect, 1);
            &&& calls_helper(effect, "effect"@, 2)
            &&& source.kind matches KindV::Arrow { is_async, params, expression, body } && !is_async
                && params.len() == 0 && expression && body.len() == 1
            &&& block_of(source)[0] matches StmtV::Expr(object) && (
            object.kind matches KindV::Object(props) && props.len() == bindings.len() && forall|i: int|
                0 <= i < bindings.len() ==> watches(
                    #[trigger] props[i],
                    numbered_id(i as nat),
                    bindings[i],
                ))
            &&& callback.kind matches KindV::Arrow { is_async, expression, .. } && !is_async
                && !expression
            &&& params_of(callback).len() == 2
            &&& params_of(callback)[1] == PatternV::Ident("_p$"@)
            &&& params_of(callback)[0] matches PatternV::Object(ids) && ids.len() == bindings.len()
                && forall|i: int| 0 <= i < ids.len() ==> #[trigger] ids[i] == numbered_id(i as nat)
            &&& block_of(callback).len() == bindings.len()
            &&& forall|i: int|
                0 <= i < bindings.len() ==> updates(
                    #[trigger] block_of(callback)[i],
                    bindings[i],
                    numbered_id(i as nat),
                    hydratable,
                    vocabulary,
                )
        }),
{
    let effect = multi_effect_v(span, bindings, hydratable, vocabulary);
    assert forall|i: int| 0 <= i < bindings.len() implies updates(
        #[trigger] block_of(arg(effect, 1))[i],
        bindings[i],
        numbered_id(i as nat),
        hydratable,
        vocabulary,
    ) by {
        an_update_sets_what_is_new(span, bindings[i], i as nat, hydratable, vocabulary);
    }
}

/// An effect of one binding computes its value, and hands it to a function that
/// sets it; the helpers that take the value before are given it.
pub proof fn an_effect_of_one(
    span: Span,
    binding: BindingV,
    hydratable: bool,
    vocabulary: Vocabulary,
)
    ensures
        ({
            let effect = single_effect_v(span, binding, hydratable, vocabulary);
            let callback = arg(effect, 1);
            &&& calls_helper(effect, "effect"@, 2)
            &&& exists|watched: ExprV|
                #[trigger] is_watched(watched, binding) && computes(arg(effect, 0), watched)
            &&& callback.kind matches KindV::Arrow { is_async, expression, .. } && !is_async
                && !expression
            &&& params_of(callback).len() == if takes_prev(binding) {
                2nat
            } else {
                1
            }
            &&& params_of(callback)[0] == PatternV::Ident("_v$"@)
            &&& takes_prev(binding) ==> params_of(callback)[1] == PatternV::Ident("_$p"@)
            &&& block_of(callback).len() == 1
            &&& block_of(callback)[0] matches StmtV::Expr(set) && if takes_prev(binding) {
                calls_helper(
                    set,
                    whole_helper(binding),
                    3,
                ) && is_name(arg(set, 0), binding.elem) && is_name(arg(set, 1), "_v$"@) && is_name(
                    arg(set, 2),
                    "_$p"@,
                )
            } else {
                exists|value: ExprV|
                    is_name(value, "_v$"@) && #[trigger] sets(
                        set,
                        binding,
                        value,
                        None,
                        hydratable,
                        vocabulary,
                    )
            }
        }),
{
    let value = crate::make::ident_v(span, "_v$"@);
    let prev = crate::make::ident_v(span, "_$p"@);
    a_bound_value_is_the_value(span, binding);
    a_source_computes_its_expression(span, bound_value(span, binding));
    if takes_prev(binding) {
        a_class_is_set_as_a_whole(span, binding, value, Some(prev), hydratable, vocabulary);
    } else {
        a_value_is_set(span, binding, value, None, hydratable, vocabulary);
    }
}

/// The statement sets a binding to its value.
pub open spec fn is_set_once(
    stmt: StmtV,
    binding: BindingV,
    hydratable: bool,
    vocabulary: Vocabulary,
) -> bool {
    stmt matches StmtV::Expr(set) && exists|watched: ExprV|
        is_watched(watched, binding) && #[trigger] sets(
            set,
            binding,
            watched,
            None,
            hydratable,
            vocabulary,
        )
}

/// Without effects each binding is set once, in order, to its value.
pub proof fn bindings_without_effects(
    ctx: ContextV,
    bindings: Seq<BindingV>,
    vocabulary: Vocabulary,
)
    requires
        !ctx.effect_wrapper_enabled,
    ensures
        ({
            let stmts = dynamics_v(ctx, bindings, vocabulary).1;
            &&& stmts.len() == bindings.len()
            &&& forall|i: int|
                0 <= i < bindings.len() ==> is_set_once(
                    #[trigger] stmts[i],
                    bindings[i],
                    ctx.hydratable,
                    vocabulary,
                )
        }),
{
    let stmts = dynamics_v(ctx, bindings, vocabulary).1;
    assert forall|i: int| 0 <= i < bindings.len() implies is_set_once(
        #[trigger] stmts[i],
        bindings[i],
        ctx.hydratable,
        vocabulary,
    ) by {
        let watched = bound_value(crate::ast::no_span(), bindings[i]);
        a_bound_value_is_the_value(crate::ast::no_span(), bindings[i]);
        a_value_is_set(
            crate::ast::no_span(),
            bindings[i],
            watched,
            None,
            ctx.hydratable,
            vocabulary,
        );
        let set = stmts[i]->Expr_0;
        assert(sets(set, bindings[i], watched, None, ctx.hydratable, vocabulary));
    }
}

/// With effects there is one for all bindings: the one of the only binding, or
/// the one of all of them.
pub proof fn bindings_with_effects(ctx: ContextV, bindings: Seq<BindingV>, vocabulary: Vocabulary)
    requires
        ctx.effect_wrapper_enabled,
    ensures
        ({
            let stmts = dynamics_v(ctx, bindings, vocabulary).1;
            &&& bindings.len() == 0 ==> stmts.len() == 0
            &&& bindings.len() > 0 ==> stmts.len() == 1 && (
            stmts[0] matches StmtV::Expr(effect) && calls_helper(effect, "effect"@, 2))
            &&& bindings.len() == 1 ==> params_of(arg(stmts[0]->Expr_0, 1))[0] == PatternV::Ident(
                "_v$"@,
            )
            &&& bindings.len() > 1 ==> block_of(arg(stmts[0]->Expr_0, 1)).len() == bindings.len()
        }),
{
    if bindings.len() == 1 {
        an_effect_of_one(crate::ast::no_span(), bindings[0], ctx.hydratable, vocabulary);
    } else {
        an_effect_of_several(crate::ast::no_span(), bindings, ctx.hydratable, vocabulary);
    }
}

} // verus!
