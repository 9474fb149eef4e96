//! What the code for any renderer does with an element.

use crate::arrange::{
    arranged_v, child_placed_v, each_placed_v, exprs_of, first_id, merged_v, node_of_v, normal_v,
    ArrangeV,
};
use crate::ast::{
    no_span, BinaryOp, Expr, ExprV, JsxAttr, JsxAttribute, JsxValue, KindV, LogicalOp, PatternV,
    PropV, Span, StmtV, UnaryOp,
};
use crate::attributes::{container_expr, is_static_conditional, wraps_effects};
use crate::ir::{ContextV, HelperSource, ResultV};
use crate::marker::static_marker;
use crate::options::TransformOptions;
use crate::peel::{is_assignable, is_function_handler, is_writable, literal_text_v, plain_call};
use crate::property_laws::binds;
use crate::scan::text_of;
use crate::shape::{
    arg, assigns, callee, calls_helper, gets_value, holds_value, is_call, is_flag, is_name, is_text,
    is_thunk,
};
use crate::spread_laws::{given_by, given_by_all, given_by_more, has_name, Given};
use crate::text::starts_with;
use crate::text_laws::{an_escaped_text_reads_back, unescaped};
use crate::universal::{
    attr_v, directive_v, expr_node_v, given_v, insert_value_v, is_constant_name, is_marked,
    is_merged, is_read_again, prop_v, read_once_v, ref_v, set_prop_v, set_v, spread_arg_v,
    spread_call_v, spreads_v, text_node_v, AttrsV,
};
use vstd::prelude::*;

verus! {

// ---------------------------------------------------------------------------
// Attributes
// ---------------------------------------------------------------------------

/// An expression sets a property of an element.
pub open spec fn sets_prop(expr: ExprV, elem: Seq<char>, name: Seq<char>, value: ExprV) -> bool {
    &&& calls_helper(expr, "setProp"@, 3)
    &&& is_name(arg(expr, 0), elem)
    &&& is_text(arg(expr, 1), name)
    &&& arg(expr, 2) == value
}

/// A property is set on the element, under its name and to its value.
pub proof fn a_prop_is_set(span: Span, elem: Seq<char>, name: Seq<char>, value: ExprV)
    ensures
        sets_prop(set_prop_v(span, elem, name, value), elem, name, value),
{
}

/// A result has one more statement, which is an expression.
pub open spec fn says(before: ResultV, after: ResultV) -> bool {
    &&& after.statements.len() == before.statements.len() + 1
    &&& after.statements.drop_last() == before.statements
    &&& after.statements.last() is Expr
    &&& after.dynamics == before.dynamics && after.exprs == before.exprs
}

/// An attribute that changes is kept up to date; any other is set once, to its
/// value, its text, or `true`.
pub proof fn an_attribute_is_set(
    attr: JsxAttribute,
    tag: Seq<char>,
    elem: Seq<char>,
    result: ResultV,
    ctx: ContextV,
    options: TransformOptions,
)
    ensures
        ({
            let done = set_v(attr, tag, elem, result, ctx, options).0;
            let set = done.statements.last()->Expr_0;
            match attr.value {
                JsxValue::Container { span, expr: Some(expr), .. } => {
                    let marked = static_marker(ctx.source, span, options.static_marker@);
                    if !marked && wraps_effects(options) && expr.facts.dynamic {
                        binds(result, done, elem, attr.key@, expr@)
                    } else {
                        says(result, done) && sets_prop(set, elem, attr.key@, arg(set, 2)) && arg(
                            set,
                            2,
                        ).kind == expr@.kind
                    }
                },
                JsxValue::Container { .. } => done == result,
                JsxValue::Str { value, .. } => says(result, done) && sets_prop(
                    set,
                    elem,
                    attr.key@,
                    arg(set, 2),
                ) && is_text(arg(set, 2), value@),
                _ => says(result, done) && sets_prop(set, elem, attr.key@, arg(set, 2)) && is_flag(
                    arg(set, 2),
                    true,
                ),
            }
        }),
{
    reveal(set_v);
    let done = set_v(attr, tag, elem, result, ctx, options).0;
    if done.statements.len() > 0 {
        assert(result.with_stmt(done.statements.last()).statements.drop_last()
            =~= result.statements);
    }
    if done.dynamics.len() > 0 {
        assert(result.with_binding(done.dynamics.last()).dynamics.drop_last()
            =~= result.dynamics);
    }
}

/// A directive is used before all else: the helper is given the directive, the
/// element and a function that gives the value.
pub proof fn a_directive_is_used(
    attr: JsxAttribute,
    elem: Seq<char>,
    result: ResultV,
    ctx: ContextV,
)
    requires
        attr.key@.len() > 4,
    ensures
        ({
            let done = directive_v(attr, elem, result, ctx).0;
            let call = done.statements[0]->Expr_0;
            &&& done.statements.len() == result.statements.len() + 1
            &&& done.statements.skip(1) == result.statements
            &&& done.statements[0] is Expr
            &&& is_call(call, 3)
            &&& is_name(callee(call), ctx.import("use"@, HelperSource::Universal).1)
            &&& is_name(arg(call, 0), attr.key@.skip(4))
            &&& is_name(arg(call, 1), elem)
            &&& arg(call, 2).kind matches KindV::Arrow { params, expression, body, .. }
                && params.len() == 0 && expression && body.len() == 1 && (
            body[0] matches StmtV::Expr(value) && match attr.value {
                JsxValue::Container { expr: Some(expr), .. } => value == expr@,
                JsxValue::Str { value: text, .. } => is_text(value, text@),
                _ => is_flag(value, true),
            })
        }),
{
    reveal(directive_v);
    let done = directive_v(attr, elem, result, ctx).0;
    assert(done.statements.skip(1) =~= result.statements);
}

/// An expression uses something on the element.
pub open spec fn uses(expr: ExprV, local: Seq<char>, used: ExprV, elem: Seq<char>) -> bool {
    &&& is_call(expr, 2)
    &&& is_name(callee(expr), local)
    &&& arg(expr, 0) == used
    &&& is_name(arg(expr, 1), elem)
}

/// An expression asks whether a name holds a function.
pub open spec fn asks_if_function(test: ExprV, name: Seq<char>) -> bool {
    test.kind matches KindV::Binary { op, left, right } && op == BinaryOp::StrictEquality
        && is_text(*right, "function"@) && (left.kind matches KindV::Unary { op, argument } && op
        == UnaryOp::Typeof && is_name(*argument, name))
}

/// A ref that is known to be a function is used on the element.  Any other is
/// read once: it is used where it holds a function, and where it can be assigned
/// it is assigned the element otherwise.
pub proof fn a_ref_is_given_the_element(
    span: Span,
    expr: Expr,
    elem: Seq<char>,
    result: ResultV,
    ctx: ContextV,
)
    ensures
        ({
            let done = ref_v(span, expr, elem, result, ctx).0;
            let assigned = is_writable(expr) && is_assignable(expr);
            if !assigned && (is_constant_name(expr) || is_function_handler(expr)) {
                &&& done.statements.len() == result.statements.len() + 1
                &&& done.statements.skip(1) == result.statements
                &&& done.statements[0] is Expr
                &&& uses(
                    done.statements[0]->Expr_0,
                    ctx.import("use"@, HelperSource::Universal).1,
                    expr@,
                    elem,
                )
            } else {
                let (mid, held) = ctx.uid("ref$"@);
                let local = mid.import("use"@, HelperSource::Universal).1;
                &&& done.statements.len() == result.statements.len() + 2
                &&& done.statements.skip(2) == result.statements
                &&& done.statements[0] matches StmtV::Var { declarators, .. } && declarators.len()
                    == 1 && declarators[0].pattern == PatternV::Ident(held) && declarators[0].init
                    == Some(expr@)
                &&& done.statements[1] is Expr
                &&& if assigned {
                    done.statements[1]->Expr_0.kind matches KindV::Conditional {
                        test,
                        consequent,
                        alternate,
                    } && asks_if_function(*test, held) && uses(
                        *consequent,
                        local,
                        arg(*consequent, 0),
                        elem,
                    ) && is_name(arg(*consequent, 0), held) && (
                    alternate.kind matches KindV::Assign { value, .. } && assigns(
                        *alternate,
                        expr@,
                        *value,
                    ) && is_name(*value, elem))
                } else {
                    done.statements[1]->Expr_0.kind matches KindV::Logical { op, left, right } && op
                        == LogicalOp::And && asks_if_function(*left, held) && uses(
                        *right,
                        local,
                        arg(*right, 0),
                        elem,
                    ) && is_name(arg(*right, 0), held)
                }
            }
        }),
{
    reveal(ref_v);
    let done = ref_v(span, expr, elem, result, ctx).0;
    assert(done.statements.len() == result.statements.len() + 1 ==> done.statements.skip(1)
        =~= result.statements);
    assert(done.statements.len() == result.statements.len() + 2 ==> done.statements.skip(2)
        =~= result.statements);
}

/// An attribute goes the way that its key says.
pub proof fn a_key_says_the_way(
    attr: JsxAttribute,
    tag: Seq<char>,
    elem: Seq<char>,
    state: AttrsV,
    options: TransformOptions,
)
    ensures
        ({
            let done = attr_v(attr, tag, elem, state, options);
            let key = attr.key@;
            &&& key == "children"@ ==> done.given == given_v(attr, state.ctx, options).0
                && done.result == state.result
            &&& starts_with(key, "use:"@) ==> (done.result, done.ctx) == directive_v(
                attr,
                elem,
                state.result,
                state.ctx,
            )
            &&& key == "ref"@ ==> (container_expr(attr.value) matches Some(expr) ==> (
            done.result, done.ctx) == ref_v(attr.span, *expr, elem, state.result, state.ctx))
            &&& key != "children"@ && key != "ref"@ && !starts_with(key, "use:"@) ==> (
            done.result, done.ctx) == set_v(attr, tag, elem, state.result, state.ctx, options)
            &&& key != "children"@ ==> done.given == state.given
        }),
{
    reveal_strlit("children");
    reveal_strlit("use:");
    reveal_strlit("ref");
    assert("children"@[0] == 'c' && "ref"@[0] == 'r');
    let key = attr.key@;
    if starts_with(key, "use:"@) {
        assert(key.take(4)[0] == 'u');
    }
}

// ---------------------------------------------------------------------------
// Spreads
// ---------------------------------------------------------------------------

/// An attribute that is read again is a getter of its name; any other is a
/// property of its name and value.
pub proof fn an_attribute_is_a_property(
    attr: JsxAttribute,
    source: Seq<char>,
    options: TransformOptions,
)
    ensures
        ({
            let prop = prop_v(attr, source, options);
            let again = is_read_again(attr, source, options.static_marker@);
            &&& has_name(prop, attr.key@)
            &&& again ==> container_expr(attr.value) is Some
            &&& again && (container_expr(attr.value)->0).facts.condition is None ==> gets_value(
                prop,
                attr.key@,
                (container_expr(attr.value)->0)@,
            )
            &&& !again ==> holds_value(
                prop,
                attr.key@,
                read_once_v(attr, is_marked(attr.value, source, options.static_marker@)),
            )
            &&& attr.value matches JsxValue::Str { value, .. } ==> is_text(
                read_once_v(attr, false),
                value@,
            )
            &&& attr.value is Absent ==> is_flag(read_once_v(attr, false), true)
            &&& container_expr(attr.value) matches Some(expr) ==> read_once_v(attr, false) == expr@
        }),
{
}

/// What the attributes of an element give, in the order in which they were
/// written.
pub open spec fn written(attrs: Seq<JsxAttr>, source: Seq<char>, options: TransformOptions) -> Seq<
    Given,
>
    decreases attrs.len(),
{
    if attrs.len() == 0 {
        seq![]
    } else {
        let before = written(attrs.drop_last(), source, options);
        match attrs.last() {
            JsxAttr::Spread { span, argument } => before + given_by(
                spread_arg_v(
                    span,
                    *argument,
                    static_marker(source, span, options.static_marker@),
                ),
            ),
            JsxAttr::Named(attr) => if is_merged(attr, attrs.drop_last(), source, options) {
                before.push(Given::Prop(prop_v(attr, source, options)))
            } else {
                before
            },
        }
    }
}

/// The attributes of an element are merged in the order in which they were
/// written.
pub proof fn spreads_keep_their_order(
    attrs: Seq<JsxAttr>,
    source: Seq<char>,
    options: TransformOptions,
)
    ensures
        ({
            let all = spreads_v(attrs, source, options);
            &&& given_by_all(all.args) + all.props.map_values(|p: PropV| Given::Prop(p)) == written(
                attrs,
                source,
                options,
            )
            &&& given_by_all(all.flushed().args) == written(attrs, source, options)
        }),
    decreases attrs.len(),
{
    let all = spreads_v(attrs, source, options);
    let prop = |p: PropV| Given::Prop(p);
    let want = written(attrs, source, options);
    if attrs.len() == 0 {
        assert(given_by_all(all.args) + all.props.map_values(prop) =~= want);
    } else {
        spreads_keep_their_order(attrs.drop_last(), source, options);
        let head = spreads_v(attrs.drop_last(), source, options);
        match attrs.last() {
            JsxAttr::Spread { span, argument } => {
                given_by_more(head.flushed().args, all.args.last());
                assert(all.args =~= head.flushed().args.push(all.args.last()));
                assert(given_by_all(all.args) + all.props.map_values(prop) =~= want);
            },
            JsxAttr::Named(attr) => {
                assert(given_by_all(all.args) + all.props.map_values(prop) =~= want);
            },
        }
    }
    if all.props.len() > 0 {
        let object = crate::make::object_v(no_span(), all.props);
        given_by_more(all.args, object);
        assert(all.flushed().args =~= all.args.push(object));
    } else {
        assert(all.props.map_values(prop) =~= seq![]);
        assert(given_by_all(all.args) + all.props.map_values(prop) =~= given_by_all(all.args));
    }
}

/// An element is spread over once: the helper is given the element, all that is
/// spread, merged unless it is one value that does not change, and whether it has
/// children.
pub proof fn an_element_is_spread_over(
    attrs: Seq<JsxAttr>,
    elem: Seq<char>,
    has_children: bool,
    ctx: ContextV,
    options: TransformOptions,
)
    ensures
        ({
            let all = spreads_v(attrs, ctx.source, options).flushed();
            let out = spread_call_v(attrs, elem, has_children, ctx, options).1;
            &&& all.args.len() == 0 ==> out is None
            &&& all.args.len() > 0 ==> out is Some && {
                let call = out->0;
                &&& is_call(call, 3)
                &&& exists|mid: ContextV|
                    is_name(
                        callee(call),
                        (#[trigger] mid.import("spread"@, HelperSource::Universal)).1,
                    )
                &&& is_name(arg(call, 0), elem)
                &&& is_flag(arg(call, 2), has_children)
                &&& if all.args.len() == 1 && !all.dynamic {
                    arg(call, 1) == all.args[0]
                } else {
                    calls_helper(arg(call, 1), "mergeProps"@, all.args.len()) && forall|i: int|
                        0 <= i < all.args.len() ==> arg(arg(call, 1), i) == #[trigger] all.args[i]
                }
            }
        }),
{
}

/// A value that is spread is the value, or a function that gives it where it
/// changes; one that is marked as static is copied.
pub proof fn a_spread_value_is_the_value(span: Span, argument: Expr)
    ensures
        argument.facts.dynamic && plain_call(argument) is None ==> is_thunk(
            spread_arg_v(span, argument, false),
            argument@,
        ),
        argument.facts.dynamic ==> (plain_call(argument) matches Some(callee) ==> spread_arg_v(
            span,
            argument,
            false,
        ) == callee@),
        !argument.facts.dynamic ==> spread_arg_v(span, argument, false) == argument@,
        spread_arg_v(span, argument, true).kind matches KindV::Object(props) && props.len() == 1
            && (props[0] matches PropV::Spread { argument: copied, .. } && copied.kind
            == argument@.kind),
{
}

// ---------------------------------------------------------------------------
// Children
// ---------------------------------------------------------------------------

/// What is inserted is the function that a plain call calls, the expression
/// itself where it does not change or is marked as static, and else a function
/// that gives it.
pub proof fn an_inserted_value_gives_its_expression(
    expr: Expr,
    span: Span,
    options: TransformOptions,
    marked: bool,
)
    ensures
        ({
            let out = insert_value_v(expr, span, options, marked);
            &&& marked ==> out.kind == expr@.kind
            &&& !marked ==> (plain_call(expr) matches Some(callee) ==> out == callee@)
            &&& !marked && plain_call(expr) is None && !expr.facts.dynamic ==> out == expr@
            &&& !marked && plain_call(expr) is None && !is_static_conditional(expr)
                && expr.facts.dynamic && expr.facts.condition is None ==> is_thunk(out, expr@)
        }),
{
}

/// A text becomes a node of its own that a fresh variable can hold; an expression
/// of a known text does too, escaped, and any other is inserted.
pub proof fn a_node_is_its_content(
    expr: Expr,
    span: Span,
    marked: bool,
    ctx: ContextV,
    options: TransformOptions,
    text: Seq<char>,
)
    ensures
        text_node_v(span, text, ctx).0.template == text,
        text_node_v(span, text, ctx).0.text,
        text_node_v(span, text, ctx).0.id == Some(ctx.uid("el$"@).1),
        text_of(expr) matches Some(known) ==> expr_node_v(expr, span, marked, ctx, options).0.text
            && unescaped(expr_node_v(expr, span, marked, ctx, options).0.template) == known,
        text_of(expr) is None ==> !expr_node_v(expr, span, marked, ctx, options).0.text
            && expr_node_v(expr, span, marked, ctx, options).0.exprs == seq![
            insert_value_v(expr, span, options, marked),
        ],
{
    if let Some(known) = text_of(expr) {
        an_escaped_text_reads_back(known, false);
    }
}

/// A child that is a known text, or a text, is held by a variable; any other
/// stays as it is.
pub proof fn a_text_is_held(child: ResultV, ctx: ContextV)
    ensures
        ({
            let done = normal_v(child, ctx).0;
            let literal = !child.text && child.id is None && child.exprs.len() == 1
                && literal_text_v(child.exprs[0]) is Some;
            &&& literal ==> done.text && done.id == Some(ctx.uid("el$"@).1) && unescaped(
                done.template,
            ) == literal_text_v(child.exprs[0])->0 && done.exprs.len() == 0
            &&& !literal && child.text ==> done.text && done.template == child.template && done.id
                is Some
            &&& !literal && !child.text ==> done == child
            &&& child.id is Some ==> done == child
        }),
{
    if child.exprs.len() == 1 {
        if let Some(text) = literal_text_v(child.exprs[0]) {
            an_escaped_text_reads_back(text, false);
        }
    }
}

/// The text that some children show together.
pub open spec fn text_shown(children: Seq<ResultV>) -> Seq<char>
    decreases children.len(),
{
    if children.len() == 0 {
        seq![]
    } else {
        text_shown(children.drop_last()) + if children.last().text {
            children.last().template
        } else {
            seq![]
        }
    }
}

/// The children that are no texts, in order.
pub open spec fn no_texts(children: Seq<ResultV>) -> Seq<ResultV>
    decreases children.len(),
{
    if children.len() == 0 {
        seq![]
    } else if children.last().text {
        no_texts(children.drop_last())
    } else {
        no_texts(children.drop_last()).push(children.last())
    }
}

/// Texts that stand side by side become one; the text that is shown, and the
/// other children, stay as they were.
pub proof fn neighbouring_texts_become_one(children: Seq<ResultV>)
    ensures
        ({
            let done = merged_v(children);
            &&& text_shown(done) == text_shown(children)
            &&& no_texts(done) == no_texts(children)
            &&& forall|i: int, j: int|
                0 <= i && j == i + 1 && j < done.len() ==> !((#[trigger] done[i]).text && (
                #[trigger] done[j]).text)
        }),
    decreases children.len(),
{
    if children.len() > 0 {
        neighbouring_texts_become_one(children.drop_last());
        let before = merged_v(children.drop_last());
        let done = merged_v(children);
        let child = children.last();
        if child.text && before.len() > 0 && before.last().text {
            assert(done.drop_last() =~= before.drop_last());
            assert(text_shown(done) =~= text_shown(children));
        } else {
            assert(done.drop_last() =~= before);
        }
    }
}

/// The marker of what is inserted is the first variable of the children behind
/// it, or none.
pub proof fn a_marker_is_the_next_node(children: Seq<ResultV>)
    ensures
        first_id(children) is None <==> forall|i: int|
            0 <= i < children.len() ==> (#[trigger] children[i]).id is None,
        first_id(children) is Some ==> exists|i: int|
            0 <= i < children.len() && (#[trigger] children[i]).id == first_id(children)
                && forall|j: int| 0 <= j < i ==> (#[trigger] children[j]).id is None,
    decreases children.len(),
{
    if children.len() > 0 && children[0].id is None {
        let rest = children.skip(1);
        a_marker_is_the_next_node(rest);
        if first_id(children) is Some {
            let i = choose|i: int|
                0 <= i < rest.len() && (#[trigger] rest[i]).id == first_id(rest) && forall|j: int|
                    0 <= j < i ==> (#[trigger] rest[j]).id is None;
            assert(children[i + 1] == rest[i]);
            assert forall|j: int| 0 <= j < i + 1 implies (#[trigger] children[j]).id is None by {
                if j > 0 {
                    assert(rest[j - 1] == children[j]);
                }
            }
        } else {
            assert forall|i: int| 0 <= i < children.len() implies (
            #[trigger] children[i]).id is None by {
                if i > 0 {
                    assert(rest[i - 1] == children[i]);
                }
            }
        }
    }
}

/// An expression makes a text node.
pub open spec fn makes_text(made: ExprV, text: Seq<char>) -> bool {
    calls_helper(made, "createTextNode"@, 1) && crate::file_laws::reads_as_text(arg(made, 0), text)
}

/// A child with a variable is the node of that variable; a text is made into a
/// node, and held by its variable where the element has several children.
pub proof fn a_node_is_made(child: ResultV, multi: bool, result: ResultV, ctx: ContextV)
    ensures
        ({
            let (done, after, node) = node_of_v(child, multi, result, ctx);
            &&& !child.text ==> done == result && is_name(node, child.id->0)
            &&& child.text && !multi ==> done == result && makes_text(node, child.template)
            &&& child.text && multi ==> done.declarations.len() == result.declarations.len() + 1 && (
            done.declarations.last().pattern matches PatternV::Ident(id) && is_name(node, id) && (
            child.id is Some ==> child.id == Some(id))) && makes_text(
                done.declarations.last().init,
                child.template,
            )
        }),
{
    reveal(node_of_v);
    crate::program::template_text_reads_back(child.template);
}

/// A node is put into its parent, and an expression is inserted there: before the
/// next node where the element has several children.
pub proof fn a_child_is_put_in(
    child: ResultV,
    multi: bool,
    parent: Seq<char>,
    marker: Option<Seq<char>>,
    state: ArrangeV,
)
    ensures
        ({
            let done = child_placed_v(child, multi, parent, marker, state);
            let n = state.result.statements.len() + child.statements.len();
            let exprs = exprs_of(child);
            if child.text || child.id is Some {
                let call = done.appends.last()->Expr_0;
                let ready = state.ctx.register("insertNode"@);
                &&& done.appends.len() == state.appends.len() + 1
                &&& done.appends.drop_last() == state.appends
                &&& done.appends.last() is Expr
                &&& calls_helper(call, "insertNode"@, 2)
                &&& is_name(arg(call, 0), parent)
                &&& arg(call, 1) == node_of_v(child, multi, state.result, ready).2
                &&& done.result.statements.take(n as int) == state.result.statements
                    + child.statements
            } else if exprs.len() > 0 {
                let call = done.result.statements.last()->Expr_0;
                &&& done.appends == state.appends
                &&& done.result.statements.len() == n + 1
                &&& done.result.statements.take(n as int) == state.result.statements
                    + child.statements
                &&& done.result.statements.last() is Expr
                &&& is_call(
                    call,
                    if multi {
                        3
                    } else {
                        2
                    },
                )
                &&& is_name(
                    callee(call),
                    state.ctx.import("insert"@, HelperSource::Universal).1,
                )
                &&& is_name(arg(call, 0), parent)
                &&& arg(call, 1) == exprs[0]
                &&& multi ==> (marker matches Some(id) ==> is_name(arg(call, 2), id)) && (marker
                    is None ==> arg(call, 2).kind is Null)
            } else {
                done == state
            }
        }),
{
    reveal(child_placed_v);
    reveal(node_of_v);
    let done = child_placed_v(child, multi, parent, marker, state);
    let n = state.result.statements.len() + child.statements.len();
    let exprs = exprs_of(child);
    if child.text || child.id is Some {
        assert(done.appends.drop_last() =~= state.appends);
        assert(done.result.statements.take(n as int) =~= state.result.statements
            + child.statements);
    } else if exprs.len() > 0 {
        assert(done.result.statements.take(n as int) =~= state.result.statements
            + child.statements);
    }
}

/// The nodes are put into an element before anything else is done to it.
pub proof fn nodes_are_put_in_first(
    children: Seq<ResultV>,
    parent: Seq<char>,
    result: ResultV,
    ctx: ContextV,
)
    ensures
        ({
            let done = arranged_v(children, parent, result, ctx).0;
            children.len() == 0 ==> done == result
        }),
        ({
            let normal = crate::arrange::normals_v(children, ctx);
            let placed = each_placed_v(
                merged_v(normal.0),
                children.len() > 1,
                parent,
                ArrangeV { result, ctx: normal.1, appends: seq![] },
            );
            let done = arranged_v(children, parent, result, ctx).0;
            children.len() > 0 ==> done.statements.take(placed.appends.len() as int)
                == placed.appends && done.statements.skip(placed.appends.len() as int)
                == placed.result.statements && done.declarations == placed.result.declarations
        }),
{
    reveal(arranged_v);
    let normal = crate::arrange::normals_v(children, ctx);
    let placed = each_placed_v(
        merged_v(normal.0),
        children.len() > 1,
        parent,
        ArrangeV { result, ctx: normal.1, appends: seq![] },
    );
    let all = placed.appends + placed.result.statements;
    assert(all.take(placed.appends.len() as int) =~= placed.appends);
    assert(all.skip(placed.appends.len() as int) =~= placed.result.statements);
}

} // verus!
