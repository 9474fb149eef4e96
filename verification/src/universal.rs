//! Elements of the universal renderer: they are made and filled at run time.

use crate::ast::{
    expr_values, group_values, no_span, nowhere, prop_values, stmt_values, BinaryOp, Expr, ExprV,
    JsxAttr, JsxAttribute, JsxValue, Kind, LogicalOp, Prop, PropKind, PropV, Span, Stmt, StmtV,
    UnaryOp,
};
use crate::all_attributes::{any_spread, has_spread, named, named_attrs};
use crate::attributes::{
    cloned, cloned_v, container_expr, expr_in_container, inserting_v, is_static_conditional,
    memo_wrapper_enabled, should_keep_conditional_insert_static, wraps_effects, wraps_memos,
};
use crate::copy::with_span;
use crate::handlers::{undefined_v, var_stmt, var_v};
use crate::ir::{
    empty_result, form_v, helper_ident_expr, helper_v, lowering_keeps_source, BindingV,
    BlockContext, ContextV, DynamicBinding, HelperSource, ResultV, TransformResult, Wanted,
};
use crate::make::{
    assign, assign_v, binary, binary_v, bool_v, boolean, call, call2, call3, call_v, conditional,
    conditional_v, copied, ident, ident_v, logical, logical_v, object, object_v, str_v, string,
    template, thunk, thunk_v, unary, unary_v, with_span_v,
};
use crate::marker::static_marker;
use crate::options::TransformOptions;
use crate::outside::{same, share};
use crate::peel::{
    assignable, callee_of_plain_call, is_assignable, is_function_handler,
    is_function_handler_expression, is_writable, is_writable_ref_target, peel_wrapped_expression,
    peeled, plain_call,
};
use crate::scan::{static_child_text, text_of};
use crate::spread::{
    attrs_of, getter_key_v, getter_return_expr, getter_v, is_getter_name, make_getter_prop_key,
    make_prop_key, prop_key_v, SpreadsV,
};
use crate::text::{
    before_first, escape_html, escape_html_v, has_prefix, split_once, starts_with, strip_prefix,
};
use std::rc::Rc;
use vstd::prelude::*;

verus! {

broadcast use group_values;

// ---------------------------------------------------------------------------
// Parts
// ---------------------------------------------------------------------------

/// A helper of the universal renderer, imported.
pub open spec fn universal_helper_v(ctx: ContextV, span: Span, name: Seq<char>) -> (
    ContextV,
    ExprV,
) {
    let import = ctx.import(name, HelperSource::Universal);
    (import.0, ident_v(span, import.1))
}

pub fn universal_helper(context: &mut BlockContext, span: Span, name: &str) -> (expr: Rc<Expr>)
    ensures
        (final(context)@, expr@) == universal_helper_v(old(context)@, span, name@),
{
    context.helper_ident_expr_with_source(span, name, HelperSource::Universal)
}

/// An attribute that can be spread with the others.
pub open spec fn spreads(key: Seq<char>, check_namespaces: bool) -> bool {
    key != "ref"@ && !(check_namespaces && match before_first(key, ':') {
        Some(ns) => ns == "class"@ || ns == "style"@ || ns == "use"@ || ns == "prop"@,
        None => false,
    })
}

/// Whether an attribute can be spread with the others.
pub fn can_native_spread(key: &str, check_namespaces: bool) -> (yes: bool)
    ensures
        yes == spreads(key@, check_namespaces),
{
    if check_namespaces {
        if let Some((ns, _)) = split_once(key, ':') {
            let ns = ns.as_str();
            if same(ns, "class") || same(ns, "style") || same(ns, "use") || same(ns, "prop") {
                return false;
            }
        }
    }
    !same(key, "ref")
}

/// `setProp(elem, "name", value)`.
pub open spec fn set_prop_v(span: Span, elem: Seq<char>, name: Seq<char>, value: ExprV) -> ExprV {
    call_v(
        span,
        helper_v(span, "setProp"@),
        seq![ident_v(span, elem), str_v(span, name), value],
    )
}

fn set_prop(span: Span, elem: &str, name: &str, value: Rc<Expr>, context: &mut BlockContext) -> (expr:
    Rc<Expr>)
    ensures
        expr@ == set_prop_v(span, elem@, name@, value@),
        final(context)@ == old(context)@.register("setProp"@),
{
    context.register_helper("setProp");
    call3(
        span,
        helper_ident_expr(span, "setProp"),
        ident(span, elem),
        string(span, name),
        value,
    )
}

/// What is inserted for an expression.
pub open spec fn insert_value_v(
    expr: Expr,
    span: Span,
    options: TransformOptions,
    marked: bool,
) -> ExprV {
    if marked {
        cloned_v(expr, true)
    } else if plain_call(expr) is Some {
        (plain_call(expr)->0)@
    } else if is_static_conditional(expr) {
        expr@
    } else if options.wrap_conditionals && wraps_memos(options) && expr.facts.dynamic
        && expr.facts.condition is Some {
        form_v((expr.facts.condition->0).insert, expr)
    } else if expr.facts.dynamic {
        thunk_v(span, expr@)
    } else {
        expr@
    }
}

/// What is inserted for an expression.
pub fn normalize_insert_value(
    expr: &Rc<Expr>,
    span: Span,
    context: &mut BlockContext,
    options: &TransformOptions,
    marked: bool,
) -> (value: Rc<Expr>)
    ensures
        value@ == insert_value_v(**expr, span, *options, marked),
        final(context)@ == (if marked {
            old(context)@
        } else {
            inserting_v(**expr, *options, old(context)@)
        }),
{
    if marked {
        return cloned(expr, true);
    }
    if let Some(callee) = callee_of_plain_call(expr) {
        return callee;
    }
    if should_keep_conditional_insert_static(expr) {
        return share(expr);
    }
    if options.wrap_conditionals && memo_wrapper_enabled(options) && expr.facts.dynamic {
        if let Some(condition) = &expr.facts.condition {
            return context.lower(&condition.insert, Wanted::Insert, expr);
        }
    }
    if expr.facts.dynamic {
        return thunk(span, share(expr));
    }
    share(expr)
}

/// A text with a variable of its own.
pub open spec fn text_node_v(span: Span, text: Seq<char>, ctx: ContextV) -> (ResultV, ContextV) {
    let fresh = ctx.uid("el$"@);
    (
        ResultV { span, template: text, text: true, id: Some(fresh.1), ..empty_result() },
        fresh.0,
    )
}

pub fn text_node(span: Span, text: String, context: &mut BlockContext) -> (node: TransformResult)
    ensures
        (node@, final(context)@) == text_node_v(span, text@, old(context)@),
{
    let id = context.generate_uid("el$");
    TransformResult::of_text(span, text, Some(id))
}

/// An expression as a child.
pub open spec fn expr_node_v(
    expr: Expr,
    span: Span,
    marked: bool,
    ctx: ContextV,
    options: TransformOptions,
) -> (ResultV, ContextV) {
    match text_of(expr) {
        Some(text) => text_node_v(span, escape_html_v(text, false), ctx),
        None => (
            ResultV {
                span,
                exprs: seq![insert_value_v(expr, span, options, marked)],
                ..empty_result()
            },
            if marked {
                ctx
            } else {
                inserting_v(expr, options, ctx)
            },
        ),
    }
}

/// An expression as a child.
pub fn build_child_result_from_expression(
    expr: &Rc<Expr>,
    span: Span,
    context: &mut BlockContext,
    options: &TransformOptions,
    marked: bool,
) -> (node: TransformResult)
    ensures
        (node@, final(context)@) == expr_node_v(**expr, span, marked, old(context)@, *options),
{
    if let Some(text) = static_child_text(expr) {
        return text_node(span, escape_html(text.as_str(), false), context);
    }
    TransformResult::of_expr(span, normalize_insert_value(expr, span, context, options, marked))
}

// ---------------------------------------------------------------------------
// Spreads
// ---------------------------------------------------------------------------

/// The braces of an attribute carry the static marker.
pub open spec fn is_marked(value: JsxValue, source: Seq<char>, marker: Seq<char>) -> bool {
    value matches JsxValue::Container { span, .. } && static_marker(source, span, marker)
}

fn marked_value(value: &JsxValue, context: &BlockContext, options: &TransformOptions) -> (yes: bool)
    ensures
        yes == is_marked(*value, context@.source, options.static_marker@),
{
    match value {
        JsxValue::Container { span, .. } => {
            context.has_static_marker_comment(*span, options.static_marker)
        },
        _ => false,
    }
}

/// An attribute is read again and again.
pub open spec fn is_read_again(attr: JsxAttribute, source: Seq<char>, marker: Seq<char>) -> bool {
    &&& !is_marked(attr.value, source, marker)
    &&& container_expr(attr.value) matches Some(expr)
    &&& expr.facts.dynamic
}

/// What a getter returns.
pub open spec fn read_again_v(attr: JsxAttribute, options: TransformOptions) -> ExprV {
    match container_expr(attr.value) {
        Some(expr) => if options.wrap_conditionals && wraps_memos(options)
            && expr.facts.condition is Some {
            form_v((expr.facts.condition->0).inline, *expr)
        } else {
            expr@
        },
        None => undefined_v(),
    }
}

/// The context behind an attribute as a property.
pub open spec fn reading_v(
    attr: JsxAttribute,
    source: Seq<char>,
    options: TransformOptions,
    ctx: ContextV,
) -> ContextV {
    if is_read_again(attr, source, options.static_marker@) && options.wrap_conditionals
        && wraps_memos(options) {
        match (container_expr(attr.value)->0).facts.condition {
            Some(condition) => ctx.lowering(
                condition.inline,
                Wanted::Inline,
                (container_expr(attr.value)->0).span,
            ),
            None => ctx,
        }
    } else {
        ctx
    }
}

/// The value of an attribute that is read once.
pub open spec fn read_once_v(attr: JsxAttribute, marked: bool) -> ExprV {
    match attr.value {
        JsxValue::Str { value, .. } => str_v(attr.span, value@),
        JsxValue::Container { expr: Some(expr), .. } => cloned_v(*expr, marked),
        JsxValue::Absent => bool_v(attr.span, true),
        _ => undefined_v(),
    }
}

/// An attribute as a property.
pub open spec fn prop_v(attr: JsxAttribute, source: Seq<char>, options: TransformOptions) -> PropV {
    if is_read_again(attr, source, options.static_marker@) {
        PropV::Named {
            span: attr.span,
            kind: PropKind::Getter,
            key: getter_key_v(attr.key@),
            value: with_span_v(getter_v(read_again_v(attr, options)), attr.span),
            method: false,
            shorthand: false,
            computed: !is_getter_name(attr.key@),
        }
    } else {
        PropV::Named {
            span: attr.span,
            kind: PropKind::Init,
            key: prop_key_v(attr.key@),
            value: read_once_v(attr, is_marked(attr.value, source, options.static_marker@)),
            method: false,
            shorthand: false,
            computed: false,
        }
    }
}

/// A spread attribute as an argument.
pub open spec fn spread_arg_v(span: Span, argument: Expr, marked: bool) -> ExprV {
    if marked {
        object_v(
            no_span(),
            seq![PropV::Spread { span, argument: cloned_v(argument, true) }],
        )
    } else if argument.facts.dynamic {
        match plain_call(argument) {
            Some(callee) => callee@,
            None => thunk_v(span, argument@),
        }
    } else {
        argument@
    }
}

/// The attributes, one after the other.  An attribute before the first spread
/// is left, unless it is read again and again.
pub open spec fn spreads_v(attrs: Seq<JsxAttr>, source: Seq<char>, options: TransformOptions) -> SpreadsV
    decreases attrs.len(),
{
    if attrs.len() == 0 {
        SpreadsV { left: seq![], args: seq![], props: seq![], dynamic: false }
    } else {
        let marker = options.static_marker@;
        let front = attrs.drop_last();
        let head = spreads_v(front, source, options);
        match attrs.last() {
            JsxAttr::Spread { span, argument } => {
                let flushed = head.flushed();
                let marked = static_marker(source, span, marker);
                SpreadsV {
                    args: flushed.args.push(spread_arg_v(span, *argument, marked)),
                    dynamic: head.dynamic || (!marked && argument.facts.dynamic),
                    ..flushed
                }
            },
            JsxAttr::Named(attr) => if is_merged(attr, front, source, options) {
                SpreadsV { props: head.props.push(prop_v(attr, source, options)), ..head }
            } else {
                SpreadsV { left: head.left.push(attr), ..head }
            },
        }
    }
}

/// An attribute is merged with the spreads.
pub open spec fn is_merged(
    attr: JsxAttribute,
    front: Seq<JsxAttr>,
    source: Seq<char>,
    options: TransformOptions,
) -> bool {
    (has_spread(front) || is_read_again(attr, source, options.static_marker@)) && spreads(
        attr.key@,
        true,
    )
}

/// The context behind the attributes.
pub open spec fn spreading_v(
    attrs: Seq<JsxAttr>,
    source: Seq<char>,
    options: TransformOptions,
    ctx: ContextV,
) -> ContextV
    decreases attrs.len(),
{
    if attrs.len() == 0 {
        ctx
    } else {
        let front = attrs.drop_last();
        let before = spreading_v(front, source, options, ctx);
        match attrs.last() {
            JsxAttr::Named(attr) => if is_merged(attr, front, source, options) {
                reading_v(attr, source, options, before)
            } else {
                before
            },
            JsxAttr::Spread { .. } => before,
        }
    }
}

/// The call of the spread helper.
pub open spec fn spread_call_v(
    attrs: Seq<JsxAttr>,
    elem: Seq<char>,
    has_children: bool,
    ctx: ContextV,
    options: TransformOptions,
) -> (ContextV, Option<ExprV>) {
    let all = spreads_v(attrs, ctx.source, options).flushed();
    let ctx = spreading_v(attrs, ctx.source, options, ctx);
    if all.args.len() == 0 {
        (ctx, None)
    } else {
        let (ctx, props) = if all.args.len() == 1 && !all.dynamic {
            (ctx, all.args[0])
        } else {
            (
                ctx.register("mergeProps"@),
                call_v(no_span(), helper_v(no_span(), "mergeProps"@), all.args),
            )
        };
        let helper = universal_helper_v(ctx, no_span(), "spread"@);
        (
            helper.0,
            Some(
                call_v(
                    no_span(),
                    helper.1,
                    seq![ident_v(no_span(), elem), props, bool_v(no_span(), has_children)],
                ),
            ),
        )
    }
}

fn prop(attr: &JsxAttribute, context: &mut BlockContext, options: &TransformOptions) -> (prop: Prop)
    ensures
        prop@ == prop_v(*attr, old(context)@.source, *options),
        final(context)@ == reading_v(*attr, old(context)@.source, *options, old(context)@),
        final(context)@.source == old(context)@.source,
{
    let marked = marked_value(&attr.value, context, options);
    let expr = expr_in_container(&attr.value);
    if let Some(expr) = &expr {
        if !marked && expr.facts.dynamic {
            let (key, is_name) = make_getter_prop_key(attr.key.as_str());
            let mut read = share(expr);
            if options.wrap_conditionals && memo_wrapper_enabled(options) {
                if let Some(condition) = &expr.facts.condition {
                    proof {
                        lowering_keeps_source(
                            context@,
                            &condition.inline,
                            Wanted::Inline,
                            expr.span,
                        );
                    }
                    read = context.lower(&condition.inline, Wanted::Inline, expr);
                }
            }
            let value = with_span(&getter_return_expr(read), attr.span);
            let prop = Prop::Named {
                span: attr.span,
                kind: PropKind::Getter,
                key,
                value,
                method: false,
                shorthand: false,
                computed: !is_name,
            };
            return prop;
        }
    }
    let key = make_prop_key(attr.key.as_str());
    let value = match &attr.value {
        JsxValue::Str { value, .. } => string(attr.span, value.as_str()),
        JsxValue::Container { expr: Some(expr), .. } => cloned(expr, marked),
        JsxValue::Absent => boolean(attr.span, true),
        _ => ident(nowhere(), "undefined"),
    };
    Prop::Named {
        span: attr.span,
        kind: PropKind::Init,
        key,
        value,
        method: false,
        shorthand: false,
        computed: false,
    }
}

fn spread_arg(span: Span, argument: &Rc<Expr>, marked: bool) -> (arg: Rc<Expr>)
    ensures
        arg@ == spread_arg_v(span, **argument, marked),
{
    if marked {
        let mut props: Vec<Prop> = Vec::new();
        let value = cloned(argument, true);
        let prop = Prop::Spread { span, argument: value };
        proof {
            assert(prop@ == PropV::Spread { span, argument: value@ });
        }
        props.push(prop);
        proof {
            assert(prop_values(props@) =~= seq![PropV::Spread { span, argument: value@ }]);
        }
        object(nowhere(), props)
    } else if argument.facts.dynamic {
        match callee_of_plain_call(argument) {
            Some(callee) => callee,
            None => thunk(span, share(argument)),
        }
    } else {
        share(argument)
    }
}

/// Takes the spreads of an element out of its attributes.
fn process_spreads<'e>(
    attrs: &'e Vec<JsxAttr>,
    elem_id: &str,
    has_children: bool,
    context: &mut BlockContext,
    options: &TransformOptions,
) -> (taken: (Vec<&'e JsxAttribute>, Option<Rc<Expr>>))
    ensures
        attrs_of(taken.0@) == spreads_v(attrs@, old(context)@.source, *options).left,
        (final(context)@, crate::template::opt_expr(taken.1)) == spread_call_v(
            attrs@,
            elem_id@,
            has_children,
            old(context)@,
            *options,
        ),
{
    let ghost source = context@.source;
    let mut left: Vec<&'e JsxAttribute> = Vec::new();
    let mut args: Vec<Rc<Expr>> = Vec::new();
    let mut props: Vec<Prop> = Vec::new();
    let mut dynamic = false;
    let mut spread_before = false;
    let mut i: usize = 0;
    proof {
        assert(attrs_of(left@) =~= seq![]);
        assert(expr_values(args@) =~= seq![]);
        assert(prop_values(props@) =~= seq![]);
    }
    while i < attrs.len()
        invariant
            i <= attrs.len(),
            source == context@.source,
            source == old(context)@.source,
            context@ == spreading_v(attrs@.take(i as int), source, *options, old(context)@),
            spread_before == has_spread(attrs@.take(i as int)),
            (SpreadsV {
                left: attrs_of(left@),
                args: expr_values(args@),
                props: prop_values(props@),
                dynamic,
            }) == spreads_v(attrs@.take(i as int), source, *options),
        decreases attrs.len() - i,
    {
        let ghost longer = attrs@.take(i + 1);
        proof {
            assert(longer.drop_last() =~= attrs@.take(i as int));
            assert(longer.last() == attrs@[i as int]);
            assert(has_spread(longer) == (spread_before || attrs@[i as int] is Spread)) by {
                if spread_before {
                    let k = choose|k: int|
                        0 <= k < attrs@.take(i as int).len() && #[trigger] attrs@.take(
                            i as int,
                        )[k] is Spread;
                    assert(longer[k] is Spread);
                }
                if attrs@[i as int] is Spread {
                    assert(longer[i as int] is Spread);
                }
                if has_spread(longer) {
                    let k = choose|k: int| 0 <= k < longer.len() && #[trigger] longer[k] is Spread;
                    if k < i {
                        assert(attrs@.take(i as int)[k] is Spread);
                    }
                }
            }
        }
        match &attrs[i] {
            JsxAttr::Spread { span, argument } => {
                if props.len() > 0 {
                    args.push(object(nowhere(), props));
                    props = Vec::new();
                    proof {
                        assert(prop_values(props@) =~= seq![]);
                    }
                }
                let marked = context.has_static_marker_comment(*span, options.static_marker);
                args.push(spread_arg(*span, argument, marked));
                dynamic = dynamic || (!marked && argument.facts.dynamic);
                spread_before = true;
            },
            JsxAttr::Named(attr) => {
                let again = match expr_in_container(&attr.value) {
                    Some(expr) => !marked_value(&attr.value, context, options)
                        && expr.facts.dynamic,
                    None => false,
                };
                if (spread_before || again) && can_native_spread(attr.key.as_str(), true) {
                    props.push(prop(attr, context, options));
                } else {
                    let ghost before = attrs_of(left@);
                    left.push(attr);
                    proof {
                        assert(attrs_of(left@) =~= before.push(*attr));
                    }
                }
            },
        }
        i = i + 1;
    }
    proof {
        assert(attrs@.take(i as int) =~= attrs@);
    }
    if props.len() > 0 {
        args.push(object(nowhere(), props));
    }
    if args.len() == 0 {
        return (left, None);
    }
    let merged = if args.len() == 1 && !dynamic {
        share(&args[0])
    } else {
        context.register_helper("mergeProps");
        call(nowhere(), helper_ident_expr(nowhere(), "mergeProps"), args)
    };
    let callee = universal_helper(context, nowhere(), "spread");
    let flag = boolean(nowhere(), has_children);
    (left, Some(call3(nowhere(), callee, ident(nowhere(), elem_id), merged, flag)))
}

// ---------------------------------------------------------------------------
// Attributes
// ---------------------------------------------------------------------------

impl ResultV {
    /// With statements before all others.
    pub open spec fn with_first(self, first: Seq<StmtV>) -> ResultV {
        ResultV { statements: first + self.statements, ..self }
    }

    /// With a statement of an expression.
    pub open spec fn with_said(self, expr: ExprV) -> ResultV {
        self.with_stmt(StmtV::Expr(expr))
    }
}

/// The value that a directive is called with.
pub open spec fn directive_value_v(attr: JsxAttribute) -> ExprV {
    match attr.value {
        JsxValue::Container { expr: Some(expr), .. } => expr@,
        JsxValue::Str { value, .. } => str_v(attr.span, value@),
        _ => bool_v(attr.span, true),
    }
}

/// A directive: `use(name, elem, () => value)`, before all other statements.
#[verifier::opaque]
pub open spec fn directive_v(
    attr: JsxAttribute,
    elem: Seq<char>,
    result: ResultV,
    ctx: ContextV,
) -> (ResultV, ContextV) {
    let name = attr.key@.skip(4);
    if name.len() == 0 {
        (result, ctx)
    } else {
        let helper = universal_helper_v(ctx, attr.span, "use"@);
        let call = call_v(
            attr.span,
            helper.1,
            seq![
                ident_v(attr.span, name),
                ident_v(attr.span, elem),
                thunk_v(attr.span, directive_value_v(attr)),
            ],
        );
        (result.with_first(seq![StmtV::Expr(call)]), helper.0)
    }
}

fn first_stmt(result: &mut TransformResult, expr: Rc<Expr>)
    ensures
        final(result)@ == old(result)@.with_first(seq![StmtV::Expr(expr@)]),
{
    let mut first: Vec<Stmt> = Vec::new();
    first.push(Stmt::Expr(expr));
    proof {
        assert(stmt_values(first@) =~= seq![StmtV::Expr(expr@)]);
    }
    result.prepend_statements(first);
}

/// A directive.
fn transform_use_directive(
    attr: &JsxAttribute,
    elem_id: &str,
    result: &mut TransformResult,
    context: &mut BlockContext,
)
    requires
        starts_with(attr.key@, "use:"@),
    ensures
        (final(result)@, final(context)@) == directive_v(
            *attr,
            elem_id@,
            old(result)@,
            old(context)@,
        ),
{
    proof {
        reveal(directive_v);
        reveal_strlit("use:");
        assert("use:"@.len() == 4);
    }
    let name = match strip_prefix(attr.key.as_str(), "use:") {
        Some(name) => name,
        None => "",
    };
    if name.unicode_len() == 0 {
        return;
    }
    let value = match &attr.value {
        JsxValue::Container { expr: Some(expr), .. } => share(expr),
        JsxValue::Str { value, .. } => string(attr.span, value.as_str()),
        _ => boolean(attr.span, true),
    };
    let callback = thunk(attr.span, value);
    let callee = universal_helper(context, attr.span, "use");
    let directive = ident(attr.span, name);
    let elem = ident(attr.span, elem_id);
    first_stmt(result, call3(attr.span, callee, directive, elem, callback));
}

/// A name that is bound to something that is not assigned to.
pub open spec fn is_constant_name(expr: Expr) -> bool {
    match peeled(expr).kind {
        Kind::Ident { symbol: Some(symbol), .. } => symbol.is_const || symbol.is_import,
        _ => false,
    }
}

fn is_constant_identifier_ref(expr: &Expr) -> (yes: bool)
    ensures
        yes == is_constant_name(*expr),
{
    match &peel_wrapped_expression(expr).kind {
        Kind::Ident { symbol, .. } => match symbol {
            Some(symbol) => symbol.is_const || symbol.is_import,
            None => false,
        },
        _ => false,
    }
}

/// `typeof x === "function"`.
pub open spec fn function_test_v(name: ExprV) -> ExprV {
    binary_v(
        no_span(),
        unary_v(no_span(), UnaryOp::Typeof, name),
        BinaryOp::StrictEquality,
        str_v(no_span(), "function"@),
    )
}

fn function_test(name: Rc<Expr>) -> (test: Rc<Expr>)
    ensures
        test@ == function_test_v(name@),
{
    let kind = unary(nowhere(), UnaryOp::Typeof, name);
    binary(nowhere(), kind, BinaryOp::StrictEquality, string(nowhere(), "function"))
}

/// A `ref`: what is known to be a function or a constant is handed to `use`;
/// anything else is evaluated once, and called where it is a function, else
/// assigned where it can be.
#[verifier::opaque]
pub open spec fn ref_v(
    span: Span,
    expr: Expr,
    elem: Seq<char>,
    result: ResultV,
    ctx: ContextV,
) -> (ResultV, ContextV) {
    let target = ident_v(span, elem);
    let assigned = is_writable(expr) && is_assignable(expr);
    if !assigned && (is_constant_name(expr) || is_function_handler(expr)) {
        let helper = universal_helper_v(ctx, span, "use"@);
        (
            result.with_first(
                seq![StmtV::Expr(call_v(span, helper.1, seq![expr@, target]))],
            ),
            helper.0,
        )
    } else {
        let fresh = ctx.uid("ref$"@);
        let helper = universal_helper_v(fresh.0, span, "use"@);
        let temp = ident_v(span, fresh.1);
        let used = call_v(span, helper.1, seq![temp, target]);
        let stmt = if assigned {
            conditional_v(
                no_span(),
                function_test_v(temp),
                used,
                assign_v(no_span(), expr@, target),
            )
        } else {
            logical_v(no_span(), function_test_v(temp), LogicalOp::And, used)
        };
        (
            result.with_first(seq![var_v(fresh.1, expr@), StmtV::Expr(stmt)]),
            helper.0,
        )
    }
}

/// A `ref`.
fn transform_ref(
    span: Span,
    expr: &Rc<Expr>,
    elem_id: &str,
    result: &mut TransformResult,
    context: &mut BlockContext,
)
    ensures
        (final(result)@, final(context)@) == ref_v(
            span,
            **expr,
            elem_id@,
            old(result)@,
            old(context)@,
        ),
{
    proof {
        reveal(ref_v);
    }
    let elem = ident(span, elem_id);
    let assigned = is_writable_ref_target(expr) && assignable(expr);
    if !assigned && (is_constant_identifier_ref(expr) || is_function_handler_expression(expr)) {
        let callee = universal_helper(context, span, "use");
        first_stmt(result, call2(span, callee, share(expr), elem));
        return;
    }
    let name = context.generate_uid("ref$");
    let temp = ident(span, name.as_str());
    let callee = universal_helper(context, span, "use");
    let used = call2(span, callee, share(&temp), share(&elem));
    let test = function_test(temp);
    let run = if assigned {
        conditional(nowhere(), test, used, assign(nowhere(), share(expr), elem))
    } else {
        logical(nowhere(), test, LogicalOp::And, used)
    };
    let declared = var_stmt(name.as_str(), share(expr));
    let mut first: Vec<Stmt> = Vec::new();
    first.push(declared);
    first.push(Stmt::Expr(run));
    proof {
        assert(stmt_values(first@) =~= seq![var_v(name@, expr@), StmtV::Expr(run@)]);
    }
    result.prepend_statements(first);
}

/// The attributes of an element so far: its result, the context, and children
/// that were given as an attribute.
pub ghost struct AttrsV {
    pub result: ResultV,
    pub ctx: ContextV,
    pub given: Option<ResultV>,
}

impl AttrsV {
    pub open spec fn with(self, pair: (ResultV, ContextV)) -> AttrsV {
        AttrsV { result: pair.0, ctx: pair.1, ..self }
    }
}

/// Children that are given as an attribute.
#[verifier::opaque]
pub open spec fn given_v(attr: JsxAttribute, ctx: ContextV, options: TransformOptions) -> (
    Option<ResultV>,
    ContextV,
) {
    match attr.value {
        JsxValue::Container { span, expr: Some(expr), .. } => {
            let marked = static_marker(ctx.source, span, options.static_marker@);
            let node = expr_node_v(*expr, attr.span, marked, ctx, options);
            (Some(node.0), node.1)
        },
        JsxValue::Str { value, .. } => {
            let node = text_node_v(attr.span, escape_html_v(value@, false), ctx);
            (Some(node.0), node.1)
        },
        _ => (None, ctx),
    }
}

/// An attribute that is set as a property: by an effect where it changes, else
/// once.
#[verifier::opaque]
pub open spec fn set_v(
    attr: JsxAttribute,
    tag: Seq<char>,
    elem: Seq<char>,
    result: ResultV,
    ctx: ContextV,
    options: TransformOptions,
) -> (ResultV, ContextV) {
    let name = attr.key@;
    let once = ctx.register("setProp"@);
    match attr.value {
        JsxValue::Container { span, expr, .. } => match expr {
            None => (result, ctx),
            Some(expr) => {
                let marked = static_marker(ctx.source, span, options.static_marker@);
                let value = cloned_v(*expr, marked);
                if !marked && wraps_effects(options) && expr.facts.dynamic {
                    (
                        result.with_binding(
                            BindingV {
                                elem,
                                key: name,
                                value,
                                is_svg: false,
                                is_ce: false,
                                tag_name: tag,
                            },
                        ),
                        ctx,
                    )
                } else {
                    (result.with_said(set_prop_v(attr.span, elem, name, value)), once)
                }
            },
        },
        JsxValue::Str { value, .. } => (
            result.with_said(set_prop_v(attr.span, elem, name, str_v(attr.span, value@))),
            once,
        ),
        _ => (
            result.with_said(set_prop_v(attr.span, elem, name, bool_v(attr.span, true))),
            once,
        ),
    }
}

/// One attribute.
pub open spec fn attr_v(
    attr: JsxAttribute,
    tag: Seq<char>,
    elem: Seq<char>,
    state: AttrsV,
    options: TransformOptions,
) -> AttrsV {
    if attr.key@ == "children"@ {
        let given = given_v(attr, state.ctx, options);
        AttrsV { given: given.0, ctx: given.1, ..state }
    } else if starts_with(attr.key@, "use:"@) {
        state.with(directive_v(attr, elem, state.result, state.ctx))
    } else if attr.key@ == "ref"@ {
        match container_expr(attr.value) {
            Some(expr) => state.with(ref_v(attr.span, *expr, elem, state.result, state.ctx)),
            None => state,
        }
    } else {
        state.with(set_v(attr, tag, elem, state.result, state.ctx, options))
    }
}

/// The attributes, one after the other.
pub open spec fn each_v(
    attrs: Seq<JsxAttribute>,
    tag: Seq<char>,
    elem: Seq<char>,
    state: AttrsV,
    options: TransformOptions,
) -> AttrsV
    decreases attrs.len(),
{
    if attrs.len() == 0 {
        state
    } else {
        attr_v(
            attrs.last(),
            tag,
            elem,
            each_v(attrs.drop_last(), tag, elem, state, options),
            options,
        )
    }
}

/// All attributes of an element; children that were given as an attribute come
/// back where there are no others.
#[verifier::opaque]
pub open spec fn attributes_v(
    attrs: Seq<JsxAttr>,
    has_children: bool,
    tag: Seq<char>,
    elem: Seq<char>,
    result: ResultV,
    ctx: ContextV,
    options: TransformOptions,
) -> AttrsV {
    let (ctx1, spread, left) = if has_spread(attrs) {
        let call = spread_call_v(attrs, elem, has_children, ctx, options);
        (call.0, call.1, spreads_v(attrs, ctx.source, options).left)
    } else {
        (ctx, None, named(attrs))
    };
    let set = each_v(left, tag, elem, AttrsV { result, ctx: ctx1, given: None }, options);
    AttrsV {
        result: match spread {
            Some(call) => set.result.with_said(call),
            None => set.result,
        },
        ctx: set.ctx,
        given: if has_children {
            None
        } else {
            set.given
        },
    }
}

pub open spec fn opt_result(result: Option<TransformResult>) -> Option<ResultV> {
    match result {
        None => None,
        Some(result) => Some(result@),
    }
}

/// Children that are given as an attribute.
fn given_children(attr: &JsxAttribute, context: &mut BlockContext, options: &TransformOptions) -> (given:
    Option<TransformResult>)
    ensures
        (opt_result(given), final(context)@) == given_v(*attr, old(context)@, *options),
{
    proof {
        reveal(given_v);
    }
    match &attr.value {
        JsxValue::Container { span, expr: Some(expr), .. } => {
            let marked = context.has_static_marker_comment(*span, options.static_marker);
            Some(build_child_result_from_expression(expr, attr.span, context, options, marked))
        },
        JsxValue::Str { value, .. } => Some(
            text_node(attr.span, escape_html(value.as_str(), false), context),
        ),
        _ => None,
    }
}

fn say(result: &mut TransformResult, expr: Rc<Expr>)
    ensures
        final(result)@ == old(result)@.with_said(expr@),
{
    let stmt = Stmt::Expr(expr);
    proof {
        assert(stmt@ == StmtV::Expr(expr@));
    }
    result.push_stmt(stmt);
}

/// An attribute that is set as a property.
fn set_attribute(
    attr: &JsxAttribute,
    tag: &str,
    elem_id: &str,
    result: &mut TransformResult,
    context: &mut BlockContext,
    options: &TransformOptions,
)
    ensures
        (final(result)@, final(context)@) == set_v(
            *attr,
            tag@,
            elem_id@,
            old(result)@,
            old(context)@,
            *options,
        ),
{
    proof {
        reveal(set_v);
    }
    let key = attr.key.as_str();
    let value = match &attr.value {
        JsxValue::Container { span, expr, .. } => match expr {
            None => {
                return;
            },
            Some(expr) => {
                let marked = context.has_static_marker_comment(*span, options.static_marker);
                let value = cloned(expr, marked);
                if !marked && !options.effect_wrapper.is_empty() && expr.facts.dynamic {
                    result.push_binding(
                        DynamicBinding {
                            elem: copied(elem_id),
                            key: copied(key),
                            value,
                            is_svg: false,
                            is_ce: false,
                            tag_name: copied(tag),
                        },
                    );
                    return;
                }
                value
            },
        },
        JsxValue::Str { value, .. } => string(attr.span, value.as_str()),
        _ => boolean(attr.span, true),
    };
    let call = set_prop(attr.span, elem_id, key, value, context);
    say(result, call);
}

/// Transforms all attributes of an element.
pub fn transform_attributes(
    attrs: &Vec<JsxAttr>,
    has_children: bool,
    tag: &str,
    elem_id: &str,
    result: &mut TransformResult,
    context: &mut BlockContext,
    options: &TransformOptions,
) -> (given: Option<TransformResult>)
    ensures
        (AttrsV { result: final(result)@, ctx: final(context)@, given: opt_result(given) })
            == attributes_v(
            attrs@,
            has_children,
            tag@,
            elem_id@,
            old(result)@,
            old(context)@,
            *options,
        ),
{
    proof {
        reveal(attributes_v);
    }
    let (left, spread) = if any_spread(attrs) {
        process_spreads(attrs, elem_id, has_children, context, options)
    } else {
        (named_attrs(attrs), None)
    };
    let ghost list = attrs_of(left@);
    let ghost start = AttrsV { result: result@, ctx: context@, given: None };
    let mut given: Option<TransformResult> = None;
    let mut i: usize = 0;
    proof {
        assert(list.take(0) =~= seq![]);
    }
    while i < left.len()
        invariant
            i <= left.len(),
            list == attrs_of(left@),
            (AttrsV { result: result@, ctx: context@, given: opt_result(given) }) == each_v(
                list.take(i as int),
                tag@,
                elem_id@,
                start,
                *options,
            ),
        decreases left.len() - i,
    {
        let attr = left[i];
        proof {
            assert(list.take(i + 1).drop_last() =~= list.take(i as int));
            assert(list.take(i + 1).last() == *attr);
        }
        let key = attr.key.as_str();
        if same(key, "children") {
            given = given_children(attr, context, options);
        } else if has_prefix(key, "use:") {
            transform_use_directive(attr, elem_id, result, context);
        } else if same(key, "ref") {
            if let Some(expr) = expr_in_container(&attr.value) {
                transform_ref(attr.span, &expr, elem_id, result, context);
            }
        } else {
            set_attribute(attr, tag, elem_id, result, context, options);
        }
        i = i + 1;
    }
    proof {
        assert(list.take(list.len() as int) =~= list);
    }
    if let Some(call) = spread {
        say(result, call);
    }
    if has_children {
        None
    } else {
        given
    }
}

} // verus!
