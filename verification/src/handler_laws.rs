//! What an element is wired to: its refs, its events and its directives.

use crate::ast::{
    BinaryOp, ExprV, JsxAttribute, JsxValue, KindV, LogicalOp, PatternV, StmtV, UnaryOp,
};
use crate::attributes::{container_expr, el_v, is_runtime_word};
use crate::handlers::{
    callable_test_v, delegated_v, directive_v, event_key_v, event_of, event_v, handler_v,
    is_callable_ref, is_capture, is_delegated, listened_v, ref_v, HandlerV,
};
use crate::ir::{ContextV, HelperSource, ResultV};
use crate::options::TransformOptions;
use crate::peel::is_assignable;
use crate::shape::{
    arg, assigns, assigns_to, callee, calls_helper, is_call, is_flag, is_name, is_text, is_thunk,
    reads_of,
};
use crate::text::{ends_with, starts_with};
use crate::vocabulary::Vocabulary;
use vstd::prelude::*;

verus! {

/// A name that the code makes up begins with an underscore.
pub open spec fn is_variable(name: Seq<char>) -> bool {
    name.len() > 0 && name[0] == '_'
}

/// A name that the code makes up stands for itself, and so do the names that the
/// code uses of the language.
pub proof fn a_variable_is_itself(name: Seq<char>)
    ensures
        is_variable(name) ==> is_name(el_v(name), name),
        is_name(el_v("Array"@), "Array"@),
        is_name(el_v("e"@), "e"@),
        is_name(el_v("_v$"@), "_v$"@),
{
    reveal_strlit("Array");
    reveal_strlit("e");
    reveal_strlit("_v$");
    reveal_strlit("NoHydration");
    reveal_strlit("addEventListener");
    reveal_strlit("className");
    reveal_strlit("createComponent");
    reveal_strlit("effect");
    reveal_strlit("getNextElement");
    reveal_strlit("getNextMarker");
    reveal_strlit("getNextMatch");
    reveal_strlit("getOwner");
    reveal_strlit("insert");
    reveal_strlit("memo");
    reveal_strlit("mergeProps");
    reveal_strlit("runHydrationEvents");
    reveal_strlit("setAttribute");
    reveal_strlit("setAttributeNS");
    reveal_strlit("setBoolAttribute");
    reveal_strlit("setProperty");
    reveal_strlit("setStyleProperty");
    reveal_strlit("spread");
    reveal_strlit("style");
    reveal_strlit("template");
    reveal_strlit("use");
    assert("NoHydration"@[0] != '_' && "addEventListener"@[0] != '_' && "className"@[0] != '_');
    assert("createComponent"@[0] != '_' && "effect"@[0] != '_' && "getNextElement"@[0] != '_');
    assert("getNextMarker"@[0] != '_' && "getNextMatch"@[0] != '_' && "getOwner"@[0] != '_');
    assert("insert"@[0] != '_' && "memo"@[0] != '_' && "mergeProps"@[0] != '_');
    assert("runHydrationEvents"@[0] != '_' && "setAttribute"@[0] != '_');
    assert("setAttributeNS"@[0] != '_' && "setBoolAttribute"@[0] != '_');
    assert("setProperty"@[0] != '_' && "setStyleProperty"@[0] != '_' && "spread"@[0] != '_');
    assert("style"@[0] != '_' && "template"@[0] != '_' && "use"@[0] != '_');
    assert("_v$"@[0] == '_');
    assert("e"@.len() == 1 && "effect"@.len() == 6 && "Array"@.len() == 5);
    assert("Array"@[0] == 'A');
    assert("NoHydration"@[0] == 'N' && "addEventListener"@[0] == 'a' && "className"@[0] == 'c');
    assert("style"@[0] == 's' && "use"@.len() == 3 && "memo"@.len() == 4);
    assert(!is_runtime_word("Array"@));
    assert(!is_runtime_word("e"@));
    assert(!is_runtime_word("_v$"@));
}

/// A name that was made up begins with an underscore and its prefix.
pub proof fn a_fresh_name_is_a_variable(ctx: ContextV, prefix: Seq<char>)
    ensures
        is_variable(ctx.uid(prefix).1),
        ctx.uid(prefix).1.len() > prefix.len(),
        ctx.uid(prefix).1.subrange(1, 1 + prefix.len() as int) == prefix,
{
    reveal_strlit("_");
    let name = ctx.uid(prefix).1;
    assert("_"@ =~= seq!['_']);
    assert(name[0] == "_"@[0]);
    assert(name.subrange(1, 1 + prefix.len() as int) =~= prefix);
}

// ---------------------------------------------------------------------------
// Refs
// ---------------------------------------------------------------------------

/// An expression calls the helper `ref` with a function that gives what is
/// called, and the element.
pub open spec fn calls_ref(expr: ExprV, local: Seq<char>, target: ExprV, elem: Seq<char>) -> bool {
    &&& is_call(expr, 2)
    &&& is_name(callee(expr), local)
    &&& is_thunk(arg(expr, 0), target)
    &&& is_name(arg(expr, 1), elem)
}

/// An expression asks whether a name holds a function or an array.
pub open spec fn asks_if_callable(test: ExprV, name: Seq<char>) -> bool {
    test.kind matches KindV::Logical { op, left, right } && op == LogicalOp::Or && (
    left.kind matches KindV::Binary { op, left, right } && op == BinaryOp::StrictEquality
        && is_text(*right, "function"@) && (left.kind matches KindV::Unary { op, argument } && op
        == UnaryOp::Typeof && is_name(*argument, name))) && is_call(*right, 1) && reads_of(
        callee(*right),
        "Array"@,
        "isArray"@,
    ) && is_name(arg(*right, 0), name)
}

/// What is asked of a ref is asked of the variable that holds it.
pub proof fn a_ref_is_tested(name: Seq<char>)
    requires
        is_variable(name),
    ensures
        asks_if_callable(callable_test_v(el_v(name)), name),
{
    a_variable_is_itself(name);
}

/// A ref that is called is called with the element.  One that can be assigned
/// too is read once: it is called where it holds a function or an array, and is
/// assigned the element where it does not.
pub proof fn a_ref_is_given_the_element(
    attr: JsxAttribute,
    elem: Seq<char>,
    result: ResultV,
    ctx: ContextV,
)
    requires
        is_variable(elem),
    ensures
        ({
            let done = ref_v(attr, elem, result, ctx).0;
            match container_expr(attr.value) {
                None => done == result,
                Some(expr) => {
                    &&& done.exprs.len() == result.exprs.len() + 1
                    &&& done.exprs.drop_last() == result.exprs
                    &&& if is_callable_ref(*expr) {
                        &&& done.statements == result.statements
                        &&& calls_ref(
                            done.exprs.last(),
                            ctx.import("ref"@, HelperSource::Dom).1,
                            expr@,
                            elem,
                        )
                    } else {
                        let (mid, held) = ctx.uid("ref$"@);
                        let local = mid.import("ref"@, HelperSource::Dom).1;
                        &&& done.statements.len() == result.statements.len() + 1
                        &&& done.statements.last() matches StmtV::Var { declarators, .. }
                            && declarators.len() == 1 && declarators[0].pattern
                            == PatternV::Ident(held) && declarators[0].init == Some(expr@)
                        &&& if is_assignable(*expr) {
                            done.exprs.last().kind matches KindV::Conditional {
                                test,
                                consequent,
                                alternate,
                            } && asks_if_callable(*test, held) && exists|target: ExprV|
                                is_name(target, held) && #[trigger] calls_ref(
                                    *consequent,
                                    local,
                                    target,
                                    elem,
                                ) && (alternate.kind matches KindV::Assign { value, .. } && assigns(
                                    *alternate,
                                    expr@,
                                    *value,
                                ) && is_name(*value, elem))
                        } else {
                            done.exprs.last().kind matches KindV::Logical { op, left, right } && op
                                == LogicalOp::And && asks_if_callable(*left, held) && exists|
                                target: ExprV,
                            |
                                is_name(target, held) && #[trigger] calls_ref(
                                    *right,
                                    local,
                                    target,
                                    elem,
                                )
                        }
                    }
                },
            }
        }),
{
    reveal(ref_v);
    a_variable_is_itself(elem);
    let held = ctx.uid("ref$"@).1;
    a_fresh_name_is_a_variable(ctx, "ref$"@);
    a_variable_is_itself(held);
    a_ref_is_tested(held);
    let done = ref_v(attr, elem, result, ctx).0;
    assert(container_expr(attr.value) is Some ==> done.exprs.drop_last() =~= result.exprs);
    let local = ctx.uid("ref$"@).0.import("ref"@, HelperSource::Dom).1;
    let call = match done.exprs.last().kind {
        KindV::Conditional { consequent, .. } => *consequent,
        KindV::Logical { right, .. } => *right,
        _ => done.exprs.last(),
    };
    assert(container_expr(attr.value) matches Some(expr) && !is_callable_ref(*expr) ==> calls_ref(
        call,
        local,
        el_v(held),
        elem,
    ));
}

// ---------------------------------------------------------------------------
// Events
// ---------------------------------------------------------------------------

/// A handler is the value, or of a pair its first part, with the second as its
/// data.
pub proof fn a_handler_is_the_value(value: JsxValue)
    ensures
        ({
            let handler = handler_v(value);
            match container_expr(value) {
                None => is_name(handler.handler, "undefined"@) && handler.data is None,
                Some(expr) => match expr.kind {
                    crate::ast::Kind::Array(items) => {
                        &&& handler.is_array
                        &&& items@.len() > 0 && items@[0] is Expr ==> handler.handler
                            == items@[0]->Expr_0@
                        &&& items@.len() > 1 && items@[1] is Expr ==> handler.data == Some(
                            items@[1]->Expr_0,
                        )
                        &&& items@.len() <= 1 ==> handler.data is None
                    },
                    _ => handler.handler == expr@ && handler.data is None && !handler.is_array,
                },
            }
        }),
{
}

/// An event listener is the handler, or calls it with its data and the event.
pub open spec fn listens(listener: ExprV, handler: HandlerV) -> bool {
    match handler.data {
        None => listener == handler.handler,
        Some(data) => listener.kind matches KindV::Arrow { is_async, params, expression, body }
            && !is_async && expression && params == seq![PatternV::Ident("e"@)] && body.len() == 1
            && (body[0] matches StmtV::Expr(call) && is_call(call, 2) && callee(call)
            == handler.handler && arg(call, 0) == data@ && is_name(arg(call, 1), "e"@)),
    }
}

/// A listener with data hands the data on before the event.
pub proof fn a_listener_calls_its_handler(handler: HandlerV)
    ensures
        listens(handler.listener(), handler),
{
    a_variable_is_itself("e"@);
}

/// A delegated handler is kept in the property `$$` and the event of the element,
/// with its data beside it; one that may be anything is added by the helper, as a
/// delegated one.
pub proof fn a_delegated_handler_is_kept(
    span: crate::ast::Span,
    elem: Seq<char>,
    event: Seq<char>,
    handler: HandlerV,
    result: ResultV,
    ctx: ContextV,
)
    requires
        is_variable(elem),
    ensures
        ({
            let done = delegated_v(span, elem, event, handler, result, ctx).0;
            let n = result.exprs.len();
            &&& done.exprs.len() >= n
            &&& done.exprs.take(n as int) == result.exprs
            &&& if handler.is_array || handler.is_function || handler.is_resolvable {
                &&& done.exprs.len() == n + if handler.data is Some {
                    2nat
                } else {
                    1
                }
                &&& assigns_to(
                    done.exprs[n as int],
                    elem,
                    seq!['$', '$'] + event,
                    handler.handler,
                )
                &&& handler.data matches Some(data) ==> assigns_to(
                    done.exprs[n + 1int],
                    elem,
                    seq!['$', '$'] + event + "Data"@,
                    data@,
                )
            } else {
                let call = done.exprs[n as int];
                &&& done.exprs.len() == n + 1
                &&& is_call(call, 4)
                &&& is_name(callee(call), ctx.import("addEvent"@, HelperSource::Dom).1)
                &&& is_name(arg(call, 0), elem)
                &&& is_text(arg(call, 1), event)
                &&& arg(call, 2) == handler.handler
                &&& is_flag(arg(call, 3), true)
            }
        }),
{
    reveal_strlit("$$");
    assert("$$"@ =~= seq!['$', '$']);
    a_variable_is_itself(elem);
    let done = delegated_v(span, elem, event, handler, result, ctx).0;
    assert(done.exprs.take(result.exprs.len() as int) =~= result.exprs);
}

/// A handler that is not delegated is added to the element: by the helper where
/// the event is named as it is, natively where it is captured or known to be a
/// function, and else by the helper that takes anything.
pub proof fn a_handler_is_added(
    attr: JsxAttribute,
    elem: Seq<char>,
    handler: HandlerV,
    result: ResultV,
    ctx: ContextV,
)
    requires
        is_variable(elem),
    ensures
        ({
            let done = listened_v(attr, elem, handler, result, ctx).0;
            let call = done.exprs.last();
            let capture = is_capture(attr.key@);
            &&& done.exprs.len() == result.exprs.len() + 1
            &&& done.exprs.drop_last() == result.exprs
            &&& if starts_with(attr.key@, "on:"@) {
                &&& calls_helper(call, "addEventListener"@, 3)
                &&& is_name(arg(call, 0), elem)
                &&& is_text(arg(call, 1), event_of(attr))
                &&& listens(arg(call, 2), handler)
            } else if capture || handler.is_array || handler.is_function || handler.is_resolvable {
                &&& is_call(
                    call,
                    if capture {
                        3
                    } else {
                        2
                    },
                )
                &&& reads_of(callee(call), elem, "addEventListener"@)
                &&& is_text(arg(call, 0), event_of(attr))
                &&& listens(arg(call, 1), handler)
                &&& capture ==> is_flag(arg(call, 2), true)
            } else {
                &&& is_call(call, 3)
                &&& is_name(callee(call), ctx.import("addEvent"@, HelperSource::Dom).1)
                &&& is_name(arg(call, 0), elem)
                &&& is_text(arg(call, 1), event_of(attr))
                &&& listens(arg(call, 2), handler)
            }
        }),
{
    a_variable_is_itself(elem);
    a_listener_calls_its_handler(handler);
    let done = listened_v(attr, elem, handler, result, ctx).0;
    assert(done.exprs.drop_last() =~= result.exprs);
}

/// An event is delegated where that is asked for and the event is one of those
/// that are; one that is captured or named as it is never is.
pub proof fn an_event_is_delegated(
    attr: JsxAttribute,
    options: TransformOptions,
    vocabulary: Vocabulary,
)
    ensures
        is_delegated(attr, options, vocabulary) ==> options.delegate_events,
        starts_with(attr.key@, "on:"@) ==> !is_delegated(attr, options, vocabulary),
        starts_with(attr.key@, "oncapture:"@) ==> !is_delegated(attr, options, vocabulary),
        ends_with(attr.key@, "Capture"@) ==> !is_delegated(attr, options, vocabulary),
        is_delegated(attr, options, vocabulary) ==> (exists|i: int|
            0 <= i < vocabulary.delegated_events@.len() && (
            #[trigger] vocabulary.delegated_events@[i])@ == event_of(attr)) || (exists|i: int|
            0 <= i < options.delegated_events@.len() && (#[trigger] options.delegated_events@[i])@
                == event_of(attr)),
{
    if is_delegated(attr, options, vocabulary) {
        let a = crate::text::texts(vocabulary.delegated_events@);
        let b = crate::options::slice_texts(options.delegated_events@);
        if a.contains(event_of(attr)) {
            let i = choose|i: int| 0 <= i < a.len() && a[i] == event_of(attr);
            assert(vocabulary.delegated_events@[i]@ == event_of(attr));
        } else {
            let i = choose|i: int| 0 <= i < b.len() && b[i] == event_of(attr);
            assert(options.delegated_events@[i]@ == event_of(attr));
        }
    }
}

/// A delegated event is noted once for the file, and the element is known to
/// have one where it is hydrated.
pub proof fn a_delegated_event_is_noted(
    attr: JsxAttribute,
    elem: Seq<char>,
    result: ResultV,
    ctx: ContextV,
    options: TransformOptions,
    vocabulary: Vocabulary,
)
    ensures
        ({
            let done = event_v(attr, elem, result, ctx, options, vocabulary);
            &&& is_delegated(attr, options, vocabulary) ==> {
                &&& done.1.delegates.contains(event_of(attr))
                &&& done.0.has_hydratable_event == (result.has_hydratable_event
                    || options.hydratable)
                &&& done.0 == delegated_v(
                    attr.span,
                    elem,
                    event_of(attr),
                    handler_v(attr.value),
                    ResultV {
                        has_hydratable_event: result.has_hydratable_event || options.hydratable,
                        ..result
                    },
                    ctx.delegate(event_of(attr)),
                ).0
            }
            &&& !is_delegated(attr, options, vocabulary) ==> done == listened_v(
                attr,
                elem,
                handler_v(attr.value),
                result,
                ctx,
            )
        }),
{
    reveal(event_v);
    let event = event_of(attr);
    let noted = ctx.delegate(event);
    if ctx.delegates.contains(event) {
        assert(noted.delegates.contains(event));
    } else {
        assert(noted.delegates.last() == event);
        assert(noted.delegates.contains(event));
    }
}

/// The name of an event that is captured is what stands before `Capture`.
pub proof fn a_captured_event_loses_its_ending(key: Seq<char>)
    ensures
        ends_with(key, "Capture"@) ==> key == event_key_v(key) + "Capture"@,
        !ends_with(key, "Capture"@) ==> event_key_v(key) == key,
{
    if ends_with(key, "Capture"@) {
        assert(key =~= event_key_v(key) + "Capture"@);
    }
}

/// The name of an event behind `oncapture:` is what stands there.
pub proof fn an_event_is_named_behind_its_prefix(attr: JsxAttribute, event: Seq<char>)
    requires
        attr.key@ == "oncapture:"@ + event,
    ensures
        event_of(attr) == event,
{
    reveal_strlit("oncapture:");
    let key = attr.key@;
    assert(key.take(10) =~= "oncapture:"@);
    assert(key[9] == ':');
    assert forall|i: int| 0 <= i < 9 implies key[i] != ':' by {
        assert(key[i] == "oncapture:"@[i]);
    }
    crate::text::first_index_unique(key, ':', 9);
    assert(key.skip(10) =~= event);
    assert(key.contains(':'));
}

// ---------------------------------------------------------------------------
// Directives
// ---------------------------------------------------------------------------

/// A directive is used on the element before anything else is done to it: the
/// helper is given the directive, the element and a function that gives the
/// value, which is `true` where none was written.
pub proof fn a_directive_is_used(
    attr: JsxAttribute,
    elem: Seq<char>,
    result: ResultV,
    ctx: ContextV,
)
    requires
        is_variable(elem),
    ensures
        ({
            let done = directive_v(attr, elem, result, ctx).0;
            let call = done.exprs[0];
            let name = attr.key@.skip("use:"@.len() as int);
            &&& done.exprs == seq![call] + result.exprs
            &&& is_call(call, 3)
            &&& is_name(callee(call), ctx.import("use"@, HelperSource::Dom).1)
            &&& !is_runtime_word(name) ==> is_name(arg(call, 0), name)
            &&& is_name(arg(call, 1), elem)
            &&& container_expr(attr.value) matches Some(expr) ==> is_thunk(arg(call, 2), expr@)
            &&& container_expr(attr.value) is None ==> exists|yes: ExprV|
                is_flag(yes, true) && #[trigger] is_thunk(arg(call, 2), yes)
        }),
{
    reveal(directive_v);
    a_variable_is_itself(elem);
    let done = directive_v(attr, elem, result, ctx).0;
    let call = done.exprs[0];
    if container_expr(attr.value) is None {
        let yes = crate::make::bool_v(crate::ast::no_span(), true);
        assert(is_thunk(arg(call, 2), yes));
    }
}

} // verus!
