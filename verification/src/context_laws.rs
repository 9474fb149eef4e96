//! What is gathered for a file, and what becomes of an expression of it.

use crate::ast::{Expr, JsxChild};
use crate::entry::{
    dom_module_of, enclosing_component, exit_v, is_deferred, names_component, put_out_v, root_info,
    ElementName, ExitV, Surrounding,
};
use crate::info::InfoV;
use crate::ir::{is_dom_runtime_helper, next_count, ContextV, HelperSource, ResultV};
use crate::node::{fragment_info_v, node_v, nodes_v, text_v};
use crate::outside::with_item;
use crate::options::{dom_module, GenerateMode, TransformOptions};
use crate::text::{ascii_lowercase, decimal, kebab_case};
use crate::vocabulary::Vocabulary;
use vstd::prelude::*;

verus! {

// ---------------------------------------------------------------------------
// Imports
// ---------------------------------------------------------------------------

/// What is added is there, at the end unless it was there before.
pub proof fn what_is_added_is_there<T>(items: Seq<T>, item: T)
    ensures
        with_item(items, item).contains(item),
        items.contains(item) ==> with_item(items, item) == items,
        !items.contains(item) ==> with_item(items, item) == items.push(item),
{
    if !items.contains(item) {
        assert(items.push(item)[items.len() as int] == item);
    }
}

/// A helper is imported under its own name from the module that was asked for,
/// and its local name is that with `_$` before it, and a number where the name is
/// taken.
pub proof fn a_helper_is_imported(ctx: ContextV, name: Seq<char>, source: HelperSource)
    requires
        !ctx.aliases.dom().contains((ctx.module_of(source), name)),
    ensures
        ({
            let (done, local) = ctx.import(name, source);
            &&& done.imports.contains((name, local, ctx.module_of(source)))
            &&& done.helpers.contains(name)
            &&& done.aliases.dom().contains((ctx.module_of(source), name))
            &&& done.aliases[(ctx.module_of(source), name)] == local
            &&& !ctx.alias_counts.dom().contains(name) ==> local == seq!['_', '$'] + name
            &&& local.len() >= 2 + name.len()
            &&& local.take(2 + name.len() as int) == seq!['_', '$'] + name
            &&& done.templates == ctx.templates && done.delegates == ctx.delegates && done.counts
                == ctx.counts
        }),
{
    reveal_strlit("_$");
    let (done, local) = ctx.import(name, source);
    what_is_added_is_there(ctx.imports, (name, local, ctx.module_of(source)));
    what_is_added_is_there(ctx.helpers, name);
    assert("_$"@ =~= seq!['_', '$']);
    assert(local.take(2 + name.len() as int) =~= seq!['_', '$'] + name);
}

/// A helper that is imported already keeps its local name.
pub proof fn an_imported_helper_keeps_its_name(ctx: ContextV, name: Seq<char>, source: HelperSource)
    requires
        ctx.aliases.dom().contains((ctx.module_of(source), name)),
    ensures
        ctx.import(name, source) == (ctx, ctx.aliases[(ctx.module_of(source), name)]),
{
}

/// Each runtime has its own module; a helper comes from the base module unless
/// another one has the DOM runtime that it belongs to.
pub proof fn a_helper_comes_from_its_module(ctx: ContextV, name: Seq<char>)
    ensures
        ctx.module_of(HelperSource::Base) == ctx.base_module,
        ctx.module_of(HelperSource::Dom) == ctx.dom_module,
        ctx.module_of(HelperSource::Universal) == ctx.universal_module,
        ctx.dom_module == ctx.base_module ==> ctx.module_of(ctx.default_source(name))
            == ctx.base_module,
        !is_dom_runtime_helper(name) ==> ctx.module_of(ctx.default_source(name)) == ctx.base_module,
        is_dom_runtime_helper(name) ==> ctx.module_of(ctx.default_source(name)) == ctx.dom_module,
{
}

/// A delegated event is noted once, in the order in which it came.
pub proof fn an_event_is_noted_once(ctx: ContextV, event: Seq<char>)
    ensures
        ctx.delegate(event).delegates.contains(event),
        ctx.delegates.contains(event) ==> ctx.delegate(event).delegates == ctx.delegates,
        !ctx.delegates.contains(event) ==> ctx.delegate(event).delegates == ctx.delegates.push(
            event,
        ),
        ctx.delegate(event).helpers == ctx.helpers,
{
    what_is_added_is_there(ctx.delegates, event);
}

/// The first variable of a prefix is the prefix behind an underscore; the others
/// have a number too.
pub proof fn the_first_variable_has_no_number(ctx: ContextV, prefix: Seq<char>)
    ensures
        !ctx.counts.dom().contains(prefix) ==> ctx.uid(prefix).1 == seq!['_'] + prefix,
        next_count(ctx.counts, prefix) == 2 ==> ctx.uid(prefix).1 == seq!['_'] + prefix + decimal(
            2,
        ),
        ctx.uid(prefix).0.counts.dom().contains(prefix),
        ctx.uid(prefix).0.helpers == ctx.helpers && ctx.uid(prefix).0.templates == ctx.templates,
{
    reveal_strlit("_");
    assert("_"@ =~= seq!['_']);
    if !ctx.counts.dom().contains(prefix) {
        assert("_"@ + prefix + Seq::<char>::empty() =~= seq!['_'] + prefix);
    }
}

// ---------------------------------------------------------------------------
// Expressions of a file
// ---------------------------------------------------------------------------

/// A component is an identifier that is written as one, a member or `this`.
pub proof fn what_names_a_component(is_component: bool)
    ensures
        names_component(ElementName::Ident { is_component }) == is_component,
        names_component(ElementName::Member),
        names_component(ElementName::This),
        !names_component(ElementName::Namespaced),
{
}

/// The element round a place is the nearest one, whether the place is in an
/// attribute or a child of it.
pub proof fn the_nearest_element_encloses(around: Seq<Surrounding>)
    ensures
        around.len() > 0 ==> {
            &&& around[0] matches Surrounding::Attributes(name) ==> enclosing_component(around)
                == Some(names_component(name))
            &&& around[0] matches Surrounding::Children(name) ==> enclosing_component(around)
                == Some(names_component(name))
            &&& !(around[0] is Attributes) && !(around[0] is Children) ==> enclosing_component(
                around,
            ) == enclosing_component(around.skip(1))
        },
        around.len() == 0 ==> enclosing_component(around) is None,
{
}

/// A tree in an expression of another is left to that one, unless the nearest
/// element round it is a component.
pub proof fn a_tree_is_left_to_the_one_round_it(around: Seq<Surrounding>)
    ensures
        !around.contains(Surrounding::JsxExpression) ==> !is_deferred(around),
        enclosing_component(around) == Some(true) ==> !is_deferred(around),
        around.contains(Surrounding::JsxExpression) && enclosing_component(around) == Some(false)
            ==> is_deferred(around),
        around.contains(Surrounding::JsxExpression) && enclosing_component(around) is None
            ==> is_deferred(around),
{
}

/// What is put out is code for the DOM in the modes of the DOM, and left to the
/// universal renderer in its own.
pub proof fn each_mode_has_its_output(
    result: ResultV,
    ctx: ContextV,
    options: TransformOptions,
    vocabulary: Vocabulary,
)
    ensures
        options.generate == GenerateMode::Universal ==> put_out_v(
            result,
            ctx,
            options,
            vocabulary,
        ) == (ExitV::Universal(result), ctx),
        options.generate == GenerateMode::Dom || options.generate == GenerateMode::Ssr
            ==> !(put_out_v(result, ctx, options, vocabulary).0 is Universal),
        options.generate == GenerateMode::Dynamic ==> (put_out_v(
            result,
            ctx,
            options,
            vocabulary,
        ).0 is Universal <==> result.output_kind is Universal),
        put_out_v(result, ctx, options, vocabulary).0 matches ExitV::Dom(expr) ==> expr
            == crate::output::output_v(ctx, result, vocabulary).1,
{
}

/// An expression without a tree at its root stays, and so does a tree that is
/// left to another.
pub proof fn other_expressions_stay(
    expr: Expr,
    around: Seq<Surrounding>,
    ctx: ContextV,
    options: TransformOptions,
    vocabulary: Vocabulary,
)
    ensures
        !(expr.kind is JsxElement) && !(expr.kind is JsxFragment) ==> exit_v(
            expr,
            around,
            ctx,
            options,
            vocabulary,
        ) == (ExitV::Unchanged, ctx),
        is_deferred(around) ==> exit_v(expr, around, ctx, options, vocabulary) == (
            ExitV::Unchanged,
            ctx,
        ),
        (expr.kind is JsxElement || expr.kind is JsxFragment) && !is_deferred(around) ==> !(exit_v(
            expr,
            around,
            ctx,
            options,
            vocabulary,
        ).0 is Unchanged),
{
}

/// At the root of a tree nothing is walked or closed yet.
pub proof fn a_root_begins_afresh(last: bool)
    ensures
        root_info(last).top_level,
        root_info(last).last_element == last,
        root_info(last).path.len() == 0,
        root_info(last).root_id is None && root_info(last).forced_id is None,
        root_info(last).to_be_closed is None,
        !root_info(last).skip_id && !root_info(last).component_child
            && !root_info(last).fragment_child,
{
}

/// The module of the DOM is that of the renderer in the dynamic mode, and the one
/// of all helpers otherwise.
pub proof fn the_dom_has_its_module(options: TransformOptions)
    ensures
        options.generate != GenerateMode::Dynamic ==> dom_module_of(options)
            == options.module_name@,
        options.generate == GenerateMode::Dynamic ==> (dom_module(
            options.renderers@,
        ) matches Some(module) ==> dom_module_of(options) == module),
        options.generate == GenerateMode::Dynamic && dom_module(options.renderers@) is None
            ==> dom_module_of(options) == options.module_name@,
{
}

/// The children of a fragment are at the top, each the last of its own template.
pub proof fn a_fragment_puts_its_children_at_the_top(info: InfoV)
    ensures
        fragment_info_v(info).top_level,
        fragment_info_v(info).last_element,
        fragment_info_v(info).fragment_child,
        fragment_info_v(info).forced_id is None,
        fragment_info_v(info).component_child == info.component_child,
{
}

/// The children of a fragment are taken one by one and in order; what shows
/// nothing is left out.
pub proof fn children_are_taken_in_order(
    children: Seq<JsxChild>,
    n: nat,
    info: InfoV,
    ctx: ContextV,
    options: TransformOptions,
    vocabulary: Vocabulary,
)
    requires
        n < children.len(),
    ensures
        ({
            let before = nodes_v(children, n, info, ctx, options, vocabulary);
            let here = node_v(children[n as int], info, before.2, options, vocabulary);
            let after = nodes_v(children, n + 1, info, ctx, options, vocabulary);
            &&& here.0 is None ==> after.0 == before.0 && after.1 == before.1
            &&& here.0 matches Some(node) ==> after.0 == before.0.push(node) && after.1.len()
                == before.1.len() + 1
            &&& after.2 == here.1
        }),
        nodes_v(children, 0, info, ctx, options, vocabulary).0.len() == 0,
{
    reveal_with_fuel(nodes_v, 2);
}

/// A child is shown by what it is: a text by its text, an expression by its one
/// expression, and an empty container not at all.
pub proof fn a_child_is_shown(
    child: JsxChild,
    info: InfoV,
    ctx: ContextV,
    options: TransformOptions,
    vocabulary: Vocabulary,
)
    ensures
        child matches JsxChild::Text(text) ==> node_v(child, info, ctx, options, vocabulary) == (
            text_v(text, info),
            ctx,
        ),
        child matches JsxChild::Container { expr, .. } ==> (expr is None ==> node_v(
            child,
            info,
            ctx,
            options,
            vocabulary,
        ).0 is None),
        child matches JsxChild::Container { expr: Some(expr), .. } ==> (node_v(
            child,
            info,
            ctx,
            options,
            vocabulary,
        ).0 matches Some(result) && result.exprs == seq![
            crate::node::contained_v(*expr, info, options),
        ] && result.template.len() == 0),
        child matches JsxChild::Spread { expr, .. } ==> (node_v(
            child,
            info,
            ctx,
            options,
            vocabulary,
        ).0 matches Some(result) && result.exprs == seq![crate::node::spread_v(*expr)]
            && result.template.len() == 0),
{
}

// ---------------------------------------------------------------------------
// Numbers and letters
// ---------------------------------------------------------------------------

/// What a text of digits stands for.
pub open spec fn number_of(text: Seq<char>) -> int
    decreases text.len(),
{
    if text.len() == 0 {
        0
    } else {
        number_of(text.drop_last()) * 10 + (text.last() as int - '0' as int)
    }
}

/// A number is written in digits that stand for it.
pub proof fn a_number_reads_back(n: nat)
    ensures
        number_of(decimal(n)) == n,
        forall|i: int|
            0 <= i < decimal(n).len() ==> '0' <= #[trigger] decimal(n)[i] && decimal(n)[i] <= '9',
    decreases n,
{
    if n < 10 {
        let text = decimal(n);
        assert(text.drop_last() =~= seq![]);
        assert(number_of(text.drop_last()) == 0);
        assert(text.last() as int - '0' as int == n);
    } else {
        a_number_reads_back(n / 10);
        let text = decimal(n);
        assert(text.drop_last() =~= decimal(n / 10));
        assert(text.last() as int - '0' as int == n % 10);
    }
}

/// Small letters are written for the capital ones of ASCII, and all else stays.
pub proof fn capitals_become_small(text: Seq<char>)
    ensures
        ascii_lowercase(text).len() == text.len(),
        forall|i: int|
            0 <= i < text.len() ==> if 'A' <= text[i] && text[i] <= 'Z' {
                #[trigger] ascii_lowercase(text)[i] as int == text[i] as int + 32
            } else {
                ascii_lowercase(text)[i] == text[i]
            },
{
}

/// A style is named with hyphens before its capitals, which become small.
pub proof fn capitals_get_a_hyphen(text: Seq<char>, c: char)
    ensures
        text.len() > 0 && 'A' <= c && c <= 'Z' ==> kebab_case(text.push(c)) == kebab_case(text)
            + seq!['-', (c as int + 32) as char],
        'a' <= c && c <= 'z' || c == '-' ==> kebab_case(text.push(c)) == kebab_case(text).push(c),
{
    let all = text.push(c);
    assert(all.drop_last() =~= text);
    assert(all.last() == c);
    if 'a' <= c && c <= 'z' || c == '-' {
        assert(kebab_case(all) =~= kebab_case(text).push(c));
    }
}

} // verus!
