//! References, event handlers and directives.

use crate::ast::{
    declarator_values, group_values, no_span, nowhere, option_value, BinaryOp, Declarator,
    DeclaratorV, Element, Expr, ExprV, JsxAttribute, JsxValue, Kind, LogicalOp, Pattern, PatternV,
    Span, Stmt, StmtV, UnaryOp, VarKind,
};
use crate::attributes::{
    container_expr, dom_helper_expr, dom_helper_v, el, el_v, expr_in_container, mem, mem_v,
};
use crate::ir::{BlockContext, ContextV, ResultV, TransformResult};
use crate::make::{
    arrow1, arrow1_v, assign, assign_v, binary, binary_v, bool_v, boolean, call1, call2, call3,
    call4, call_v, conditional, conditional_v, copied, ident, ident_v, logical, logical_v, str_v,
    string, thunk, thunk_v, unary, unary_v,
};
use crate::options::{is_one_of, slice_texts, TransformOptions};
use crate::outside::share;
use crate::peel::{
    assignable, is_assignable, is_function_handler, is_function_handler_expression, is_resolvable,
    is_resolvable_event_handler, is_writable, is_writable_ref_target,
};
use crate::text::{
    after_first, ends_with, has_prefix, has_suffix, joined, split_once, starts_with, strip_prefix,
    texts,
};
use crate::vocabulary::{contains, Vocabulary};
use std::rc::Rc;
use vstd::prelude::*;

verus! {

broadcast use group_values;

// ---------------------------------------------------------------------------
// ref
// ---------------------------------------------------------------------------

/// A `ref` that is a function or array in place, or cannot be assigned to.
pub open spec fn is_callable_ref(expr: Expr) -> bool {
    expr.kind is Arrow || expr.kind is Function || expr.kind is Array || !is_writable(expr)
}

/// `typeof x === "function" || Array.isArray(x)`.
pub open spec fn callable_test_v(name: ExprV) -> ExprV {
    logical_v(
        no_span(),
        binary_v(
            no_span(),
            unary_v(no_span(), UnaryOp::Typeof, name),
            BinaryOp::StrictEquality,
            str_v(no_span(), "function"@),
        ),
        LogicalOp::Or,
        call_v(no_span(), mem_v(el_v("Array"@), "isArray"@), seq![name]),
    )
}

/// `var name = init;`.
pub open spec fn var_v(name: Seq<char>, init: ExprV) -> StmtV {
    StmtV::Var {
        kind: VarKind::Var,
        declarators: seq![DeclaratorV { pattern: PatternV::Ident(name), init: Some(init) }],
    }
}

/// `var name = init;`.
pub fn var_stmt(name: &str, init: Rc<Expr>) -> (stmt: Stmt)
    ensures
        stmt@ == var_v(name@, init@),
{
    let mut declarators: Vec<Declarator> = Vec::new();
    declarators.push(Declarator { pattern: Pattern::Ident(copied(name)), init: Some(init) });
    proof {
        assert(option_value(declarators@[0].init) == Some(init@));
        assert(declarator_values(declarators@) =~= seq![
            DeclaratorV { pattern: PatternV::Ident(name@), init: Some(init@) },
        ]);
    }
    Stmt::Var { kind: VarKind::Var, declarators }
}

/// The call of the `ref` helper.
pub open spec fn ref_call_v(callee: ExprV, target: ExprV, elem: ExprV) -> ExprV {
    call_v(no_span(), callee, seq![thunk_v(no_span(), target), elem])
}

/// A `ref`: called where it can be, assigned where it cannot.
#[verifier::opaque]
pub open spec fn ref_v(attr: JsxAttribute, elem: Seq<char>, result: ResultV, ctx: ContextV) -> (
    ResultV,
    ContextV,
) {
    match container_expr(attr.value) {
        None => (result, ctx),
        Some(expr) => if is_callable_ref(*expr) {
            let helper = dom_helper_v(ctx, attr.span, "ref"@);
            (result.with_expr(ref_call_v(helper.1, expr@, el_v(elem))), helper.0)
        } else {
            let uid = ctx.uid("ref$"@);
            let helper = dom_helper_v(uid.0, attr.span, "ref"@);
            let target = el_v(uid.1);
            let call = ref_call_v(helper.1, target, el_v(elem));
            (
                result.with_stmt(var_v(uid.1, expr@)).with_expr(
                    if is_assignable(*expr) {
                        conditional_v(
                            no_span(),
                            callable_test_v(target),
                            call,
                            assign_v(no_span(), expr@, el_v(elem)),
                        )
                    } else {
                        logical_v(no_span(), callable_test_v(target), LogicalOp::And, call)
                    },
                ),
                helper.0,
            )
        },
    }
}

fn callable_test(name: &Rc<Expr>) -> (test: Rc<Expr>)
    ensures
        test@ == callable_test_v(name@),
{
    let span = nowhere();
    let kind = unary(span, UnaryOp::Typeof, share(name));
    let test = binary(span, kind, BinaryOp::StrictEquality, string(span, "function"));
    let array_test = call1(span, mem(el("Array"), "isArray"), share(name));
    logical(span, test, LogicalOp::Or, array_test)
}

fn ref_call(callee: Rc<Expr>, target: Rc<Expr>, elem: Rc<Expr>) -> (call: Rc<Expr>)
    ensures
        call@ == ref_call_v(callee@, target@, elem@),
{
    call2(nowhere(), callee, thunk(nowhere(), target), elem)
}

fn callable_ref(expr: &Expr) -> (yes: bool)
    ensures
        yes == is_callable_ref(*expr),
{
    let in_place = match &expr.kind {
        Kind::Arrow { .. } => true,
        Kind::Function { .. } => true,
        Kind::Array(_) => true,
        _ => false,
    };
    in_place || !is_writable_ref_target(expr)
}

/// Transforms a `ref`.
pub fn transform_ref(
    attr: &JsxAttribute,
    elem_id: &str,
    result: &mut TransformResult,
    context: &mut BlockContext,
)
    ensures
        (final(result)@, final(context)@) == ref_v(*attr, elem_id@, old(result)@, old(context)@),
{
    proof {
        reveal(ref_v);
    }
    if let Some(expr) = expr_in_container(&attr.value) {
        let elem = el(elem_id);
        if callable_ref(&expr) {
            let callee = dom_helper_expr(context, attr.span, "ref");
            result.push_expr(ref_call(callee, expr, elem));
            return;
        }
        let uid = context.generate_uid("ref$");
        let target = el(uid.as_str());
        result.push_stmt(var_stmt(uid.as_str(), share(&expr)));
        let test = callable_test(&target);
        let callee = dom_helper_expr(context, attr.span, "ref");
        let call = ref_call(callee, target, share(&elem));
        if assignable(&expr) {
            let assignment = assign(nowhere(), expr, elem);
            result.push_expr(conditional(nowhere(), test, call, assignment));
        } else {
            result.push_expr(logical(nowhere(), test, LogicalOp::And, call));
        }
    }
}

// ---------------------------------------------------------------------------
// Events
// ---------------------------------------------------------------------------

/// The expression of an element of an array.
pub open spec fn element_expr(items: Seq<Element>, index: int) -> Option<Rc<Expr>> {
    if index < items.len() {
        match items[index] {
            Element::Expr(expr) => Some(expr),
            _ => None,
        }
    } else {
        None
    }
}

fn expr_at(items: &Vec<Element>, index: usize) -> (expr: Option<Rc<Expr>>)
    ensures
        expr == element_expr(items@, index as int),
{
    if index < items.len() {
        match &items[index] {
            Element::Expr(expr) => Some(share(expr)),
            _ => None,
        }
    } else {
        None
    }
}

pub open spec fn undefined_v() -> ExprV {
    ident_v(no_span(), "undefined"@)
}

/// The value of an expression, or `undefined`.
pub open spec fn or_undefined_v(expr: Option<Rc<Expr>>) -> ExprV {
    match expr {
        Some(expr) => expr@,
        None => undefined_v(),
    }
}

/// The value of an expression, or `undefined`.
pub fn or_undefined(expr: Option<Rc<Expr>>) -> (value: Rc<Expr>)
    ensures
        value@ == or_undefined_v(expr),
{
    match expr {
        Some(expr) => expr,
        None => ident(nowhere(), "undefined"),
    }
}

/// What a handler is: the function, the data that it is called with, and
/// whether both came in an array.
pub ghost struct HandlerV {
    pub handler: ExprV,
    pub data: Option<Rc<Expr>>,
    pub is_array: bool,
    pub is_function: bool,
    pub is_resolvable: bool,
}

pub open spec fn handler_v(value: JsxValue) -> HandlerV {
    match container_expr(value) {
        None => HandlerV {
            handler: undefined_v(),
            data: None,
            is_array: false,
            is_function: false,
            is_resolvable: false,
        },
        Some(expr) => match expr.kind {
            Kind::Array(items) => HandlerV {
                handler: or_undefined_v(element_expr(items@, 0)),
                data: element_expr(items@, 1),
                is_array: true,
                is_function: false,
                is_resolvable: false,
            },
            _ => HandlerV {
                handler: expr@,
                data: None,
                is_array: false,
                is_function: is_function_handler(*expr),
                is_resolvable: is_resolvable(*expr),
            },
        },
    }
}

struct Handler {
    handler: Rc<Expr>,
    data: Option<Rc<Expr>>,
    is_array: bool,
    is_function: bool,
    is_resolvable: bool,
}

impl Handler {
    spec fn value(self) -> HandlerV {
        HandlerV {
            handler: self.handler@,
            data: self.data,
            is_array: self.is_array,
            is_function: self.is_function,
            is_resolvable: self.is_resolvable,
        }
    }

    fn of(value: &JsxValue) -> (handler: Handler)
        ensures
            handler.value() == handler_v(*value),
    {
        match expr_in_container(value) {
            None => Handler {
                handler: ident(nowhere(), "undefined"),
                data: None,
                is_array: false,
                is_function: false,
                is_resolvable: false,
            },
            Some(expr) => match &expr.kind {
                Kind::Array(items) => Handler {
                    handler: or_undefined(expr_at(items, 0)),
                    data: expr_at(items, 1),
                    is_array: true,
                    is_function: false,
                    is_resolvable: false,
                },
                _ => Handler {
                    handler: share(&expr),
                    data: None,
                    is_array: false,
                    is_function: is_function_handler_expression(&expr),
                    is_resolvable: is_resolvable_event_handler(&expr),
                },
            },
        }
    }
}

impl HandlerV {
    /// The handler is known not to change.
    pub open spec fn is_fixed(self) -> bool {
        self.is_array || self.is_function || self.is_resolvable
    }

    /// The listener: with data, a function that hands the data on.
    pub open spec fn listener(self) -> ExprV {
        match self.data {
            Some(data) => arrow1_v(
                no_span(),
                "e"@,
                call_v(no_span(), self.handler, seq![data@, el_v("e"@)]),
            ),
            None => self.handler,
        }
    }
}

/// The name of a handler without the `Capture` at its end.
pub open spec fn event_key_v(key: Seq<char>) -> Seq<char> {
    if ends_with(key, "Capture"@) {
        key.take(key.len() - "Capture"@.len())
    } else {
        key
    }
}

/// The name of a handler without the `Capture` at its end: the part that names
/// the event.
pub fn event_key(key: &str) -> (base: String)
    ensures
        base@ == event_key_v(key@),
{
    if !has_suffix(key, "Capture") {
        return copied(key);
    }
    let base = key.substring_char(0, key.unicode_len() - "Capture".unicode_len());
    proof {
        assert(base@ =~= event_key_v(key@));
    }
    copied(base)
}

/// The event of a handler's name.
pub open spec fn event_of(attr: JsxAttribute) -> Seq<char> {
    if starts_with(attr.key@, "oncapture:"@) {
        match after_first(attr.key@, ':') {
            Some(event) => event,
            None => ""@,
        }
    } else {
        attr.event_name@
    }
}

/// A handler that listens in the capture phase.
pub open spec fn is_capture(key: Seq<char>) -> bool {
    starts_with(key, "oncapture:"@) || ends_with(key, "Capture"@)
}

/// A handler whose event is delegated.
pub open spec fn is_delegated(
    attr: JsxAttribute,
    options: TransformOptions,
    vocabulary: Vocabulary,
) -> bool {
    !starts_with(attr.key@, "on:"@) && !is_capture(attr.key@) && options.delegate_events && (texts(
        vocabulary.delegated_events@,
    ).contains(event_of(attr)) || slice_texts(options.delegated_events@).contains(event_of(attr)))
}

/// The expressions of a delegated handler.
pub open spec fn delegated_v(
    span: Span,
    elem: Seq<char>,
    event: Seq<char>,
    handler: HandlerV,
    result: ResultV,
    ctx: ContextV,
) -> (ResultV, ContextV) {
    if handler.is_fixed() {
        let set = result.with_expr(
            assign_v(no_span(), mem_v(el_v(elem), "$$"@ + event), handler.handler),
        );
        match handler.data {
            Some(data) => (
                set.with_expr(
                    assign_v(no_span(), mem_v(el_v(elem), "$$"@ + event + "Data"@), data@),
                ),
                ctx,
            ),
            None => (set, ctx),
        }
    } else {
        let helper = dom_helper_v(ctx, span, "addEvent"@);
        (
            result.with_expr(
                call_v(
                    no_span(),
                    helper.1,
                    seq![
                        el_v(elem),
                        str_v(no_span(), event),
                        handler.handler,
                        bool_v(no_span(), true),
                    ],
                ),
            ),
            helper.0,
        )
    }
}

/// The expressions of a handler that is not delegated.
pub open spec fn listened_v(
    attr: JsxAttribute,
    elem: Seq<char>,
    handler: HandlerV,
    result: ResultV,
    ctx: ContextV,
) -> (ResultV, ContextV) {
    let key = attr.key@;
    let event = str_v(no_span(), event_of(attr));
    let listener = handler.listener();
    if starts_with(key, "on:"@) {
        (
            result.with_expr(
                call_v(no_span(), el_v("addEventListener"@), seq![el_v(elem), event, listener]),
            ),
            ctx.register("addEventListener"@),
        )
    } else if is_capture(key) || handler.is_fixed() {
        (
            result.with_expr(
                call_v(
                    no_span(),
                    mem_v(el_v(elem), "addEventListener"@),
                    if is_capture(key) {
                        seq![event, listener, bool_v(no_span(), true)]
                    } else {
                        seq![event, listener]
                    },
                ),
            ),
            ctx,
        )
    } else {
        let helper = dom_helper_v(ctx, attr.span, "addEvent"@);
        (
            result.with_expr(call_v(no_span(), helper.1, seq![el_v(elem), event, listener])),
            helper.0,
        )
    }
}

/// An event handler.
#[verifier::opaque]
pub open spec fn event_v(
    attr: JsxAttribute,
    elem: Seq<char>,
    result: ResultV,
    ctx: ContextV,
    options: TransformOptions,
    vocabulary: Vocabulary,
) -> (ResultV, ContextV) {
    let handler = handler_v(attr.value);
    if is_delegated(attr, options, vocabulary) {
        delegated_v(
            attr.span,
            elem,
            event_of(attr),
            handler,
            ResultV {
                has_hydratable_event: result.has_hydratable_event || options.hydratable,
                ..result
            },
            ctx.delegate(event_of(attr)),
        )
    } else {
        listened_v(attr, elem, handler, result, ctx)
    }
}

fn event_name(attr: &JsxAttribute) -> (event: String)
    ensures
        event@ == event_of(*attr),
{
    if has_prefix(attr.key.as_str(), "oncapture:") {
        match split_once(attr.key.as_str(), ':') {
            Some((_, event)) => event,
            None => copied(""),
        }
    } else {
        attr.event_name.clone()
    }
}

fn listener(handler: &Handler) -> (expr: Rc<Expr>)
    ensures
        expr@ == handler.value().listener(),
{
    match &handler.data {
        Some(data) => {
            let call = call2(nowhere(), share(&handler.handler), share(data), el("e"));
            arrow1(nowhere(), "e", call)
        },
        None => share(&handler.handler),
    }
}

fn push_delegated(
    span: Span,
    elem_id: &str,
    event: &str,
    handler: &Handler,
    result: &mut TransformResult,
    context: &mut BlockContext,
)
    ensures
        (final(result)@, final(context)@) == delegated_v(
            span,
            elem_id@,
            event@,
            handler.value(),
            old(result)@,
            old(context)@,
        ),
{
    if handler.is_array || handler.is_function || handler.is_resolvable {
        let name = joined("$$", event);
        let target = mem(el(elem_id), name.as_str());
        result.push_expr(assign(nowhere(), target, share(&handler.handler)));
        if let Some(data) = &handler.data {
            let target = mem(el(elem_id), joined(name.as_str(), "Data").as_str());
            result.push_expr(assign(nowhere(), target, share(data)));
        }
        return;
    }
    let callee = dom_helper_expr(context, span, "addEvent");
    result.push_expr(
        call4(
            nowhere(),
            callee,
            el(elem_id),
            string(nowhere(), event),
            share(&handler.handler),
            boolean(nowhere(), true),
        ),
    );
}

fn push_listened(
    attr: &JsxAttribute,
    elem_id: &str,
    handler: &Handler,
    result: &mut TransformResult,
    context: &mut BlockContext,
)
    ensures
        (final(result)@, final(context)@) == listened_v(
            *attr,
            elem_id@,
            handler.value(),
            old(result)@,
            old(context)@,
        ),
{
    let span = nowhere();
    let key = attr.key.as_str();
    let event = string(span, event_name(attr).as_str());
    let listener = listener(handler);
    if has_prefix(key, "on:") {
        context.register_helper("addEventListener");
        result.push_expr(call3(span, el("addEventListener"), el(elem_id), event, listener));
        return;
    }
    let capture = has_prefix(key, "oncapture:") || has_suffix(key, "Capture");
    if capture || handler.is_array || handler.is_function || handler.is_resolvable {
        let callee = mem(el(elem_id), "addEventListener");
        if capture {
            result.push_expr(call3(span, callee, event, listener, boolean(span, true)));
        } else {
            result.push_expr(call2(span, callee, event, listener));
        }
        return;
    }
    let callee = dom_helper_expr(context, attr.span, "addEvent");
    result.push_expr(call3(span, callee, el(elem_id), event, listener));
}

/// Transforms an event handler.
pub fn transform_event(
    attr: &JsxAttribute,
    elem_id: &str,
    result: &mut TransformResult,
    context: &mut BlockContext,
    options: &TransformOptions,
    vocabulary: &Vocabulary,
)
    ensures
        (final(result)@, final(context)@) == event_v(
            *attr,
            elem_id@,
            old(result)@,
            old(context)@,
            *options,
            *vocabulary,
        ),
{
    proof {
        reveal(event_v);
    }
    let key = attr.key.as_str();
    let event = event_name(attr);
    let handler = Handler::of(&attr.value);
    let delegated = !has_prefix(key, "on:") && !(has_prefix(key, "oncapture:") || has_suffix(
        key,
        "Capture",
    )) && options.delegate_events && (contains(&vocabulary.delegated_events, event.as_str())
        || is_one_of(&options.delegated_events, event.as_str()));
    if delegated {
        context.register_delegate(event.as_str());
        result.note_hydratable_event(options.hydratable);
        push_delegated(attr.span, elem_id, event.as_str(), &handler, result, context);
    } else {
        push_listened(attr, elem_id, &handler, result, context);
    }
}

// ---------------------------------------------------------------------------
// Directives
// ---------------------------------------------------------------------------

/// A directive: its call comes before all others.
#[verifier::opaque]
pub open spec fn directive_v(
    attr: JsxAttribute,
    elem: Seq<char>,
    result: ResultV,
    ctx: ContextV,
) -> (ResultV, ContextV) {
    let helper = dom_helper_v(ctx, attr.span, "use"@);
    let value = thunk_v(
        no_span(),
        match container_expr(attr.value) {
            Some(expr) => expr@,
            None => bool_v(no_span(), true),
        },
    );
    let call = call_v(
        no_span(),
        helper.1,
        seq![el_v(crate::template::behind(attr.key@, "use:"@)), el_v(elem), value],
    );
    (ResultV { exprs: seq![call] + result.exprs, ..result }, helper.0)
}

/// Transforms a directive.
pub fn transform_directive(
    attr: &JsxAttribute,
    elem_id: &str,
    result: &mut TransformResult,
    context: &mut BlockContext,
)
    requires
        starts_with(attr.key@, "use:"@),
    ensures
        (final(result)@, final(context)@) == directive_v(
            *attr,
            elem_id@,
            old(result)@,
            old(context)@,
        ),
{
    proof {
        reveal(directive_v);
    }
    let name = match strip_prefix(attr.key.as_str(), "use:") {
        Some(name) => name,
        None => "",
    };
    let inner = match expr_in_container(&attr.value) {
        Some(expr) => expr,
        None => boolean(nowhere(), true),
    };
    let value = thunk(nowhere(), inner);
    let callee = dom_helper_expr(context, attr.span, "use");
    let call = call3(nowhere(), callee, el(name), el(elem_id), value);
    result.push_first_expr(call);
}

} // verus!
