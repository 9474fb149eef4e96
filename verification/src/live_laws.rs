//! What is kept current, what asks for more, and what is numbered.

use crate::ast::{no_span, Expr, ExprV, JsxAttribute, JsxElement, JsxValue, Kind, KindV, StmtV};
use crate::attribute::{is_kept_current, is_live_text};
use crate::attributes::{is_static_branch, needs_quotes, wraps_memos};
use crate::info::InfoV;
use crate::ir::{uid_suffix, ContextV, Wanted};
use crate::marker::static_marker_anywhere;
use crate::node::{component_v, containing_v};
use crate::options::TransformOptions;
use crate::peel::{peeled, plain_call};
use crate::recover::{marks_v, mended};
use crate::scan::{last_asked, Asked};
use crate::spread::getter_v;
use crate::statics::confident;
use crate::text::{decimal, decimal_nonempty, starts_with};
use vstd::prelude::*;

verus! {

// ---------------------------------------------------------------------------
// Attributes
// ---------------------------------------------------------------------------

/// A value that a comment marks is set once; another is kept current where it may
/// change, and a class or a style also where it is not known.
pub proof fn what_is_kept_current(key: Seq<char>, expr: Expr)
    ensures
        !is_kept_current(key, expr, true),
        expr.facts.dynamic ==> is_kept_current(key, expr, false),
        !expr.facts.dynamic && confident(expr) ==> !is_kept_current(key, expr, false),
        !expr.facts.dynamic && !confident(expr) ==> (is_kept_current(key, expr, false) <==> key
            == "class"@ || key == "style"@),
{
}

/// The text of an element is kept current in a node of its own where the element
/// has no children, and the text may change and is not marked.
pub proof fn what_text_is_live(
    attr: JsxAttribute,
    has_children: bool,
    source: Seq<char>,
    options: TransformOptions,
)
    ensures
        is_live_text(attr, has_children, source, options) ==> attr.key@ == "textContent"@
            && !has_children && attr.value is Container && attr.value->expr is Some
            && attr.value->expr->0.facts.dynamic,
        attr.key@ == "textContent"@ && !has_children ==> (attr.value matches JsxValue::Container {
            span,
            expr: Some(expr),
            ..
        } ==> (is_live_text(attr, has_children, source, options) <==> expr.facts.dynamic
            && !static_marker_anywhere(source, span, options.static_marker@))),
{
}

/// The characters that a value in the template cannot hold without quotes.
pub open spec fn breaks_a_value(c: char) -> bool {
    ||| c == '<' || c == '>' || c == '='
    ||| c == '"' || c == '\'' || c == '`'
    ||| c == ' ' || c == '\t' || c == '\n' || c == '\r'
}

/// A value goes without quotes only where no character ends it or opens a tag.
pub proof fn a_value_without_quotes_is_whole(value: Seq<char>)
    ensures
        needs_quotes(value) <==> exists|i: int|
            0 <= i < value.len() && breaks_a_value(#[trigger] value[i]),
{
    if needs_quotes(value) {
        let i = choose|i: int|
            0 <= i < value.len() && crate::attributes::is_quote_char(#[trigger] value[i]);
        assert(breaks_a_value(value[i]));
    }
    if exists|i: int| 0 <= i < value.len() && breaks_a_value(#[trigger] value[i]) {
        let i = choose|i: int| 0 <= i < value.len() && breaks_a_value(#[trigger] value[i]);
        assert(crate::attributes::is_quote_char(value[i]));
    }
}

/// A branch stays where it does not change, or makes an element.
pub proof fn a_branch_stays(expr: Expr)
    ensures
        !peeled(expr).facts.dynamic ==> is_static_branch(expr),
        peeled(expr).facts.dynamic ==> (is_static_branch(expr) <==> match peeled(expr).kind {
            Kind::Call { callee, .. } => callee.kind matches Kind::Ident { name, .. } && (
            starts_with(name@, "_tmpl$"@) || starts_with(name@, "_$createElement"@)),
            _ => false,
        }),
{
}

/// A getter is a function without a name or a parameter that gives the value.
pub proof fn a_getter_gives_its_value(value: ExprV)
    ensures
        getter_v(value).kind == (KindV::Function {
            is_async: false,
            generator: false,
            name: None,
            params: seq![],
            body: seq![StmtV::Return(Some(value))],
        }),
        getter_v(value).span == no_span(),
{
}

// ---------------------------------------------------------------------------
// Children
// ---------------------------------------------------------------------------

/// A component is what was made of it, and has a hydrated event where that has
/// one.
pub proof fn a_component_is_what_was_made(element: JsxElement)
    ensures
        ({
            let done = component_v(element);
            &&& done.span == element.span
            &&& done.template.len() == 0 && done.id is None && !done.text
            &&& element.component is None ==> done.exprs.len() == 0 && !done.has_hydratable_event
            &&& element.component matches Some(made) ==> done.exprs.len() == made.exprs@.len()
                && (done.has_hydratable_event <==> made.has_hydratable_event) && forall|i: int|
                0 <= i < made.exprs@.len() ==> #[trigger] done.exprs[i] == made.exprs@[i]@
        }),
{
}

/// A condition that changes is asked for in its inline form, where memos wrap
/// it; nothing else is asked for.
pub proof fn a_condition_is_asked_for(
    expr: Expr,
    info: InfoV,
    options: TransformOptions,
    ctx: ContextV,
)
    ensures
        ({
            let asks = expr.facts.dynamic && expr.facts.condition is Some && (info.component_child
                || plain_call(expr) is None) && options.wrap_conditionals && wraps_memos(options);
            &&& !asks ==> containing_v(expr, info, options, ctx) == ctx
            &&& asks && (expr.facts.condition->0).inline is None ==> containing_v(
                expr,
                info,
                options,
                ctx,
            ) == ctx.ask(Wanted::Inline, expr.span)
        }),
{
}

/// In a hydrated element the last child that means something is the last, and
/// else the last that stands in the template.
pub proof fn what_counts_as_last()
    ensures
        last_asked(true) == Asked::Meaning,
        last_asked(false) == Asked::Anchor,
{
}

// ---------------------------------------------------------------------------
// Numbers
// ---------------------------------------------------------------------------

/// The first variable of a prefix has no number, and the numbers of the others
/// are all numbers: two is the first, no number is left out, and the numbers rise
/// but for the two smallest.
pub proof fn every_number_is_used(n: nat)
    ensures
        uid_suffix(1).len() == 0,
        uid_suffix(2) == decimal(2),
        exists|count: nat| count >= 2 && #[trigger] uid_suffix(count) == decimal(n),
        n >= 12 ==> uid_suffix(n) == decimal((n - 2) as nat) && uid_suffix(n + 1) == decimal(
            (n - 1) as nat,
        ),
{
    decimal_nonempty(n);
    let count: nat = if n < 2 {
        n + 10
    } else if n < 10 {
        n
    } else {
        n + 2
    };
    assert(uid_suffix(count) == decimal(n));
}

// ---------------------------------------------------------------------------
// Recovery
// ---------------------------------------------------------------------------

/// A source is mended exactly where an error marks a hyphen in it.
pub proof fn only_a_marked_source_is_mended(
    source: Seq<char>,
    report: crate::outside::ReportV,
    sentinel: Seq<char>,
)
    ensures
        mended(source, report, sentinel) is Some <==> marks_v(
            source,
            report.diagnostics,
            report.diagnostics.len(),
        ).len() > 0,
{
}

} // verus!
