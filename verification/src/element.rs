//! Elements of the platform: their templates, and what is run for them.

use crate::all_attributes::{
    attributes_keep, attributes_need_id, attributes_v, in_group, named, transform_attributes, AttrGroup,
};
use crate::ast::{
    no_span, nowhere, Expr, ExprV, JsxChild, JsxElement, JsxText, Pattern, PatternV, Span,
};
use crate::attributes::{
    cloned, cloned_v, dom_helper_expr, dom_helper_v, el, el_v, insert_value_v, inserting_v, mem,
    mem_v, normalize_insert_value,
};
use crate::info::{InfoV, TransformInfo};
use crate::ir::{empty_result, BlockContext, ContextV, ResultV, TransformResult};
use crate::make::{
    assign, assign_v, call0, call2, call_v, copied, empty_object, object_v, string, str_v, thunk,
    thunk_v,
};
use crate::marker::static_marker;
use crate::options::TransformOptions;
use crate::outside::{same, share};
use crate::place::{
    declare_node, insert_child, insertion_v, taken_v, text_walk_v, walk_over_text, Place, PlaceV,
    Setting, StateV,
};
use crate::scan::{
    any_answers, any_child_has, any_dynamic_insert, any_named, custom_element, detect_expressions,
    element_needs_runtime_access, find_last_element_index, has_dynamic_insert,
    has_multiple_meaningful_children, has_named, is_custom, is_multi, is_single,
    is_single_dynamic_child, is_walked, last_asked, last_of, needs_access, static_child_text,
    text_of, Asked,
};
use crate::text::{
    chars_of, ends_with, escape_html, escape_html_v, has_char, has_suffix, is_white, joined, texts,
    white,
};
use crate::vocabulary::Vocabulary;
use std::rc::Rc;
use vstd::prelude::*;

verus! {

// ---------------------------------------------------------------------------
// Before the children
// ---------------------------------------------------------------------------

/// The element is held by a variable.
pub open spec fn has_id(
    element: JsxElement,
    info: InfoV,
    options: TransformOptions,
    vocabulary: Vocabulary,
) -> bool {
    !info.skip_id && (info.top_level || needs_access(element, options, vocabulary))
}

/// An SVG element that is wrapped into an `svg` of its own.
pub open spec fn is_wrapped(tag: Seq<char>, top_level: bool, vocabulary: Vocabulary) -> bool {
    top_level && tag != "svg"@ && vocabulary.is_svg(tag)
}

/// An element whose template is imported and not cloned.
pub open spec fn is_imported(element: JsxElement) -> bool {
    (element.tag@ == "img"@ || element.tag@ == "iframe"@) && has_named(
        element.attrs@,
        "loading"@,
    )
}

/// A part of the document that has no template when hydrating.
pub open spec fn is_document_part(tag: Seq<char>) -> bool {
    tag == "html"@ || tag == "head"@ || tag == "body"@
}

/// The result of an element, with nothing in it yet.
pub open spec fn base_v(
    element: JsxElement,
    top_level: bool,
    options: TransformOptions,
    vocabulary: Vocabulary,
) -> ResultV {
    ResultV {
        span: element.span,
        tag_name: Some(element.tag@),
        is_svg: vocabulary.is_svg(element.tag@),
        template_is_svg: is_wrapped(element.tag@, top_level, vocabulary),
        has_custom_element: is_custom(element),
        is_import_node: is_imported(element),
        skip_template: options.hydratable && is_document_part(element.tag@),
        ..empty_result()
    }
}

/// `createComponent(NoHydration, {})`.
pub open spec fn no_hydration_v(span: Span) -> ExprV {
    call_v(
        no_span(),
        el_v("createComponent"@),
        seq![el_v("NoHydration"@), object_v(span, seq![])],
    )
}

/// The steps of a path from a variable.
pub open spec fn walk_v(root: Seq<char>, path: Seq<Seq<char>>) -> ExprV
    decreases path.len(),
{
    if path.len() == 0 {
        el_v(root)
    } else {
        mem_v(walk_v(root, path.drop_last()), path.last())
    }
}

/// Gives an element its variable.
#[verifier::opaque]
pub open spec fn identified_v(
    span: Span,
    info: InfoV,
    result: ResultV,
    ctx: ContextV,
    hydratable: bool,
) -> (ResultV, ContextV) {
    if info.path.len() == 0 {
        match info.root_id {
            Some(id) => (result.with_id(id), ctx),
            None => {
                let fresh = ctx.uid("el$"@);
                (result.with_id(fresh.1), fresh.0)
            },
        }
    } else {
        let (ctx, id) = match info.forced_id {
            Some(id) => (ctx, id),
            None => ctx.uid("el$"@),
        };
        match info.root_id {
            Some(root) => if hydratable && info.match_tag is Some {
                (
                    result.with_id(id).with_declaration(
                        PatternV::Ident(id),
                        call_v(
                            no_span(),
                            el_v("getNextMatch"@),
                            seq![walk_v(root, info.path), str_v(span, info.match_tag->0)],
                        ),
                    ),
                    ctx.register("getNextMatch"@),
                )
            } else {
                (
                    result.with_id(id).with_declaration(
                        PatternV::Ident(id),
                        walk_v(root, info.path),
                    ),
                    ctx,
                )
            },
            None => (result.with_id(id), ctx),
        }
    }
}

/// Tells a custom element its owner.
#[verifier::opaque]
pub open spec fn owned_v(
    element: JsxElement,
    result: ResultV,
    ctx: ContextV,
    options: TransformOptions,
) -> (ResultV, ContextV) {
    if options.context_to_custom_elements && (element.tag@ == "slot"@ || is_custom(element))
        && result.id is Some {
        (
            result.with_expr(
                assign_v(
                    no_span(),
                    mem_v(el_v(result.id->0), "_$owner"@),
                    call_v(no_span(), el_v("getOwner"@), seq![]),
                ),
            ),
            ctx.register("getOwner"@),
        )
    } else {
        (result, ctx)
    }
}

/// Inserts children that were given as an attribute.
#[verifier::opaque]
pub open spec fn given_children_v(
    given: Option<(Rc<Expr>, bool)>,
    result: ResultV,
    ctx: ContextV,
    options: TransformOptions,
) -> (ResultV, ContextV) {
    match given {
        None => (result, ctx),
        Some((expr, marked)) => {
            let value = if marked {
                cloned_v(*expr, true)
            } else {
                insert_value_v(*expr, options)
            };
            let ready = ctx.register("insert"@);
            let told = if marked {
                ready
            } else {
                inserting_v(*expr, options, ready)
            };
            let helper = dom_helper_v(told, no_span(), "insert"@);
            (
                result.with_expr(
                    call_v(no_span(), helper.1, seq![el_v(result.id->0), value]),
                ),
                helper.0,
            )
        },
    }
}

/// An element up to its opening tag.
#[verifier::opaque]
pub open spec fn opened_v(
    element: JsxElement,
    info: InfoV,
    ctx: ContextV,
    options: TransformOptions,
    vocabulary: Vocabulary,
) -> (ResultV, ContextV) {
    let base = base_v(element, info.top_level, options, vocabulary);
    let (known, ctx1) = if has_id(element, info, options, vocabulary) {
        identified_v(element.span, info, base, ctx, options.hydratable)
    } else {
        (base, ctx)
    };
    let begun = known.starting(
        if is_wrapped(element.tag@, info.top_level, vocabulary) {
            "<svg><"@ + element.tag@
        } else {
            "<"@ + element.tag@
        },
    );
    let set = attributes_v(
        element.attrs@,
        element.children@.len() > 0,
        begun,
        ctx1,
        options,
        vocabulary,
    );
    let owned = owned_v(element, set.0, set.1, options);
    let filled = given_children_v(set.3, owned.0, owned.1, options);
    let ended = filled.0.with_both(">"@);
    (
        if set.2 && !vocabulary.is_void(element.tag@) {
            ended.with_both(" "@)
        } else {
            ended
        },
        filled.1,
    )
}

/// Something of an element needs its variable.
pub open spec fn id_is_needed(
    element: JsxElement,
    options: TransformOptions,
    vocabulary: Vocabulary,
) -> bool {
    ||| attributes_need_id(
        element.attrs@,
        vocabulary.is_svg(element.tag@),
        options,
        vocabulary,
    )
    ||| element.children@.len() == 0 && in_group(named(element.attrs@), AttrGroup::Children).len()
        > 0
}

/// The steps of a path from a variable.
fn walk(root: &str, path: &Vec<String>) -> (expr: Rc<Expr>)
    ensures
        expr@ == walk_v(root@, texts(path@)),
{
    let mut expr = el(root);
    let mut i: usize = 0;
    proof {
        assert(texts(path@).take(0) =~= seq![]);
    }
    while i < path.len()
        invariant
            i <= path.len(),
            expr@ == walk_v(root@, texts(path@).take(i as int)),
        decreases path.len() - i,
    {
        expr = mem(expr, path[i].as_str());
        proof {
            let longer = texts(path@).take(i + 1);
            assert(longer.drop_last() =~= texts(path@).take(i as int));
            assert(longer.last() == path@[i as int]@);
        }
        i = i + 1;
    }
    proof {
        assert(texts(path@).take(path@.len() as int) =~= texts(path@));
    }
    expr
}

/// Gives an element its variable.
fn identify(
    span: Span,
    info: &TransformInfo,
    result: &mut TransformResult,
    context: &mut BlockContext,
    hydratable: bool,
)
    ensures
        (final(result)@, final(context)@) == identified_v(
            span,
            info@,
            old(result)@,
            old(context)@,
            hydratable,
        ),
{
    proof {
        reveal(identified_v);
    }
    if info.path.len() == 0 {
        match &info.root_id {
            Some(id) => {
                result.set_id(id.clone());
            },
            None => {
                let id = context.generate_uid("el$");
                result.set_id(id);
            },
        }
        return;
    }
    let id = match &info.forced_id {
        Some(id) => id.clone(),
        None => context.generate_uid("el$"),
    };
    result.set_id(id.clone());
    if let Some(root) = &info.root_id {
        let steps = walk(root.as_str(), &info.path);
        let init = if hydratable {
            match &info.match_tag {
                Some(tag) => {
                    context.register_helper("getNextMatch");
                    call2(nowhere(), el("getNextMatch"), steps, string(span, tag.as_str()))
                },
                None => steps,
            }
        } else {
            steps
        };
        result.push_declaration(Pattern::Ident(id), init);
    }
}

/// Tells a custom element its owner.
fn tell_owner(
    element: &JsxElement,
    result: &mut TransformResult,
    context: &mut BlockContext,
    options: &TransformOptions,
)
    ensures
        (final(result)@, final(context)@) == owned_v(
            *element,
            old(result)@,
            old(context)@,
            *options,
        ),
{
    proof {
        reveal(owned_v);
    }
    if options.context_to_custom_elements && (same(element.tag.as_str(), "slot") || custom_element(
        element,
    )) {
        if let Some(id) = result.id_copy() {
            context.register_helper("getOwner");
            let target = mem(el(id.as_str()), "_$owner");
            let owner = call0(nowhere(), el("getOwner"));
            result.push_expr(assign(nowhere(), target, owner));
        }
    }
}

/// Inserts children that were given as an attribute.
fn insert_given_children(
    given: Option<(Rc<Expr>, bool)>,
    result: &mut TransformResult,
    context: &mut BlockContext,
    options: &TransformOptions,
)
    requires
        given is Some ==> old(result)@.id is Some,
    ensures
        (final(result)@, final(context)@) == given_children_v(
            given,
            old(result)@,
            old(context)@,
            *options,
        ),
{
    proof {
        reveal(given_children_v);
    }
    if let Some((expr, marked)) = given {
        if let Some(id) = result.id_copy() {
            context.register_helper("insert");
            let value = if marked {
                cloned(&expr, true)
            } else {
                normalize_insert_value(&expr, context, options)
            };
            let callee = dom_helper_expr(context, nowhere(), "insert");
            result.push_expr(call2(nowhere(), callee, el(id.as_str()), value));
        }
    }
}

/// The result of an element, with nothing in it yet.
fn begin_element(
    element: &JsxElement,
    top_level: bool,
    options: &TransformOptions,
    vocabulary: &Vocabulary,
) -> (result: TransformResult)
    ensures
        result@ == base_v(*element, top_level, *options, *vocabulary),
{
    let tag = element.tag.as_str();
    let is_svg = vocabulary.svg(tag);
    let import_node = (same(tag, "img") || same(tag, "iframe")) && any_named(
        &element.attrs,
        "loading",
    );
    let mut result = TransformResult::of_element(
        element.span,
        tag,
        is_svg,
        top_level && !same(tag, "svg") && is_svg,
        custom_element(element),
        import_node,
    );
    if options.hydratable && (same(tag, "html") || same(tag, "head") || same(tag, "body")) {
        result.set_skip_template();
    }
    result
}

/// An element up to its opening tag.
fn open_element(
    element: &JsxElement,
    info: &TransformInfo,
    context: &mut BlockContext,
    options: &TransformOptions,
    vocabulary: &Vocabulary,
) -> (result: TransformResult)
    requires
        has_id(*element, info@, *options, *vocabulary) || !id_is_needed(
            *element,
            *options,
            *vocabulary,
        ),
    ensures
        (result@, final(context)@) == opened_v(
            *element,
            info@,
            old(context)@,
            *options,
            *vocabulary,
        ),
{
    proof {
        reveal(opened_v);
        reveal(identified_v);
    }
    let tag = element.tag.as_str();
    let wrap_svg = info.top_level && !same(tag, "svg") && vocabulary.svg(tag);
    let mut result = begin_element(element, info.top_level, options, vocabulary);
    if !info.skip_id && (info.top_level || element_needs_runtime_access(
        element,
        options,
        vocabulary,
    )) {
        identify(element.span, info, &mut result, context, options.hydratable);
    }
    if wrap_svg {
        result.start_template(joined("<svg><", tag).as_str());
    } else {
        result.start_template(joined("<", tag).as_str());
    }
    proof {
        attributes_keep(
            element.attrs@,
            element.children@.len() > 0,
            result@,
            context@,
            *options,
            *vocabulary,
        );
    }
    let asked = transform_attributes(
        &element.attrs,
        element.children.len() > 0,
        &mut result,
        context,
        options,
        vocabulary,
    );
    let ghost set = result@;
    tell_owner(element, &mut result, context, options);
    proof {
        reveal(owned_v);
        assert(result@.id == set.id);
    }
    insert_given_children(asked.synthetic_children, &mut result, context, options);
    result.push_both(">");
    if asked.needs_text_content_placeholder && !vocabulary.void(tag) {
        result.push_both(" ");
    }
    result
}

// ---------------------------------------------------------------------------
// Children
// ---------------------------------------------------------------------------

/// What holds of all children of a list.
pub open spec fn setting_v(
    children: Seq<JsxChild>,
    has_id: bool,
    options: TransformOptions,
    vocabulary: Vocabulary,
) -> Setting {
    Setting {
        single: is_single(children),
        multi: is_multi(children),
        has_component: any_answers(children, Asked::Component),
        track: has_id && has_dynamic_insert(children, options, vocabulary),
        hydratable: options.hydratable,
    }
}

/// A text ends in a line break or a space that the expression behind it is
/// parted by.
pub open spec fn is_parted(text: JsxText, behind: Option<JsxChild>) -> bool {
    &&& text.source@.contains('\n')
    &&& is_white(text.source@.last())
    &&& behind matches Some(JsxChild::Container { span, expr: Some(_) })
    &&& !ends_with(text.content@, " "@)
}

pub open spec fn child_at(children: Seq<JsxChild>, at: int) -> Option<JsxChild> {
    if 0 <= at < children.len() {
        Some(children[at])
    } else {
        None
    }
}

/// A text among the children.
#[verifier::opaque]
pub open spec fn text_child_v(
    text: JsxText,
    children: Seq<JsxChild>,
    at: nat,
    setting: Setting,
    state: StateV,
    options: TransformOptions,
    vocabulary: Vocabulary,
) -> StateV {
    if text.content@.len() == 0 {
        state
    } else {
        let shown = state.with_both(text.content@);
        let parted = if is_parted(text, child_at(children, (at + 1) as int)) {
            shown.with_both(" "@)
        } else {
            shown
        };
        text_walk_v(
            parted,
            is_walked(children, at, options, vocabulary),
            setting.has_component,
        ).with_placeholder(None)
    }
}

/// An expression among the children.
#[verifier::opaque]
pub open spec fn expr_child_v(
    span: Span,
    expr: Expr,
    children: Seq<JsxChild>,
    at: nat,
    setting: Setting,
    state: StateV,
    options: TransformOptions,
    vocabulary: Vocabulary,
) -> StateV {
    match text_of(expr) {
        Some(text) => {
            let shown = if text.len() > 0 {
                text_walk_v(
                    state.with_both(escape_html_v(text, false)),
                    is_walked(children, at, options, vocabulary),
                    setting.has_component,
                )
            } else {
                state
            };
            shown.with_placeholder(None)
        },
        None => match state.result.id {
            None => state,
            Some(parent) => {
                let marked = static_marker(state.ctx.source, span, options.static_marker@);
                insertion_v(
                    StateV {
                        ctx: if marked {
                            state.ctx
                        } else {
                            inserting_v(expr, options, state.ctx)
                        },
                        ..state.with_last_was_text(false)
                    },
                    span,
                    if marked {
                        cloned_v(expr, true)
                    } else {
                        insert_value_v(expr, options)
                    },
                    parent,
                    children,
                    at,
                    setting,
                    options,
                    vocabulary,
                )
            },
        },
    }
}

/// A spread among the children.
#[verifier::opaque]
pub open spec fn spread_child_v(
    span: Span,
    expr: Expr,
    children: Seq<JsxChild>,
    at: nat,
    setting: Setting,
    state: StateV,
    options: TransformOptions,
    vocabulary: Vocabulary,
) -> StateV {
    match state.result.id {
        None => state,
        Some(parent) => insertion_v(
            state.with_last_was_text(false),
            span,
            if expr.facts.dynamic {
                thunk_v(no_span(), expr@)
            } else {
                expr@
            },
            parent,
            children,
            at,
            setting,
            options,
            vocabulary,
        ),
    }
}

/// A component among the children.
#[verifier::opaque]
pub open spec fn component_child_v(
    element: JsxElement,
    children: Seq<JsxChild>,
    at: nat,
    setting: Setting,
    state: StateV,
    options: TransformOptions,
    vocabulary: Vocabulary,
) -> StateV {
    let told = state.with_last_was_text(false);
    let start = if setting.lowers_first() {
        told
    } else {
        StateV { ctx: told.ctx.reaching(element), ..told }
    };
    match (start.result.id, element.component) {
        (Some(parent), Some(output)) => if output.exprs@.len() == 0 {
            start
        } else {
            insertion_v(
                StateV {
                    result: ResultV {
                        has_hydratable_event: start.result.has_hydratable_event
                            || output.has_hydratable_event,
                        ..start.result
                    },
                    ..start
                },
                element.span,
                output.exprs@[0]@,
                parent,
                children,
                at,
                setting,
                options,
                vocabulary,
            )
        },
        _ => start,
    }
}

/// A text ends in a line break or a space that the expression behind it is
/// parted by.
fn parted_text(text: &JsxText, children: &Vec<JsxChild>, at: usize) -> (yes: bool)
    requires
        at < children.len(),
    ensures
        yes == is_parted(*text, child_at(children@, at + 1)),
{
    let chars = chars_of(text.source.as_str());
    let n: usize = chars.len();
    if n == 0 || !has_char(text.source.as_str(), '\n') || !white(chars[n - 1]) {
        return false;
    }
    if at + 1 >= children.len() {
        return false;
    }
    let before_expression = match &children[at + 1] {
        JsxChild::Container { expr: Some(_), .. } => true,
        _ => false,
    };
    before_expression && !has_suffix(text.content.as_str(), " ")
}

/// A text among the children.
fn transform_text_child(
    text: &JsxText,
    children: &Vec<JsxChild>,
    at: usize,
    setting: Setting,
    result: &mut TransformResult,
    context: &mut BlockContext,
    place: &mut Place,
    options: &TransformOptions,
    vocabulary: &Vocabulary,
)
    requires
        at < children.len(),
    ensures
        (StateV { result: final(result)@, ctx: final(context)@, place: final(place)@ })
            == text_child_v(
            *text,
            children@,
            at as nat,
            setting,
            StateV { result: old(result)@, ctx: old(context)@, place: old(place)@ },
            *options,
            *vocabulary,
        ),
{
    proof {
        reveal(text_child_v);
    }
    if text.content.as_str().unicode_len() == 0 {
        return;
    }
    result.push_both(text.content.as_str());
    if parted_text(text, children, at) {
        result.push_both(" ");
    }
    let walked = detect_expressions(children, at, options, vocabulary);
    walk_over_text(walked, setting.has_component, result, context, place);
    place.placeholder = None;
}

/// An expression among the children.
fn transform_expr_child(
    span: Span,
    expr: &Rc<Expr>,
    children: &Vec<JsxChild>,
    at: usize,
    setting: Setting,
    result: &mut TransformResult,
    context: &mut BlockContext,
    place: &mut Place,
    options: &TransformOptions,
    vocabulary: &Vocabulary,
)
    requires
        at < children.len(),
    ensures
        (StateV { result: final(result)@, ctx: final(context)@, place: final(place)@ })
            == expr_child_v(
            span,
            **expr,
            children@,
            at as nat,
            setting,
            StateV { result: old(result)@, ctx: old(context)@, place: old(place)@ },
            *options,
            *vocabulary,
        ),
{
    proof {
        reveal(expr_child_v);
    }
    if let Some(text) = static_child_text(expr) {
        if text.as_str().unicode_len() > 0 {
            result.push_both(escape_html(text.as_str(), false).as_str());
            let walked = detect_expressions(children, at, options, vocabulary);
            walk_over_text(walked, setting.has_component, result, context, place);
        }
        place.placeholder = None;
        return;
    }
    let marked = context.has_static_marker_comment(span, options.static_marker);
    if let Some(parent) = result.id_copy() {
        place.last_was_text = false;
        let value = if marked {
            cloned(expr, true)
        } else {
            normalize_insert_value(expr, context, options)
        };
        insert_child(
            span,
            value,
            parent.as_str(),
            children,
            at,
            setting,
            result,
            context,
            place,
            options,
            vocabulary,
        );
    }
}

/// A spread among the children.
fn transform_spread_child(
    span: Span,
    expr: &Rc<Expr>,
    children: &Vec<JsxChild>,
    at: usize,
    setting: Setting,
    result: &mut TransformResult,
    context: &mut BlockContext,
    place: &mut Place,
    options: &TransformOptions,
    vocabulary: &Vocabulary,
)
    requires
        at < children.len(),
    ensures
        (StateV { result: final(result)@, ctx: final(context)@, place: final(place)@ })
            == spread_child_v(
            span,
            **expr,
            children@,
            at as nat,
            setting,
            StateV { result: old(result)@, ctx: old(context)@, place: old(place)@ },
            *options,
            *vocabulary,
        ),
{
    proof {
        reveal(spread_child_v);
    }
    if let Some(parent) = result.id_copy() {
        place.last_was_text = false;
        let value = if expr.facts.dynamic {
            thunk(nowhere(), share(expr))
        } else {
            share(expr)
        };
        insert_child(
            span,
            value,
            parent.as_str(),
            children,
            at,
            setting,
            result,
            context,
            place,
            options,
            vocabulary,
        );
    }
}

/// A component among the children.
fn transform_component_child(
    element: &JsxElement,
    children: &Vec<JsxChild>,
    at: usize,
    setting: Setting,
    result: &mut TransformResult,
    context: &mut BlockContext,
    place: &mut Place,
    options: &TransformOptions,
    vocabulary: &Vocabulary,
)
    requires
        at < children.len(),
    ensures
        (StateV { result: final(result)@, ctx: final(context)@, place: final(place)@ })
            == component_child_v(
            *element,
            children@,
            at as nat,
            setting,
            StateV { result: old(result)@, ctx: old(context)@, place: old(place)@ },
            *options,
            *vocabulary,
        ),
{
    proof {
        reveal(component_child_v);
    }
    place.last_was_text = false;
    if !(setting.hydratable && setting.has_component) {
        context.reach(element);
    }
    if let Some(parent) = result.id_copy() {
        if let Some(output) = &element.component {
            if output.exprs.len() > 0 {
                result.note_hydratable_event(output.has_hydratable_event);
                let value = share(&output.exprs[0]);
                insert_child(
                    element.span,
                    value,
                    parent.as_str(),
                    children,
                    at,
                    setting,
                    result,
                    context,
                    place,
                    options,
                    vocabulary,
                );
            }
        }
    }
}

/// What an element among the children is told.
pub open spec fn child_info_v(
    tag: Seq<char>,
    is_last: bool,
    parent_tag: Seq<char>,
    info: InfoV,
    place: PlaceV,
    hydratable: bool,
) -> InfoV {
    InfoV {
        top_level: false,
        last_element: is_last,
        path: place.walk_path(info.path),
        root_id: place.walk_root(info.root_id),
        forced_id: None,
        match_tag: if hydratable && parent_tag == "html"@ {
            Some(tag)
        } else {
            info.match_tag
        },
        ..info
    }
}

/// There is a way to an element in steps.
pub open spec fn is_reached(info: InfoV) -> bool {
    info.root_id is Some && info.path.len() > 0
}

/// Hands a kept variable to an element among the children.
#[verifier::opaque]
pub open spec fn forced_v(
    element: JsxElement,
    info: InfoV,
    setting: Setting,
    state: StateV,
    options: TransformOptions,
    vocabulary: Vocabulary,
) -> (StateV, InfoV) {
    if setting.track && state.place.pool.len() > 0 && !info.skip_id && is_reached(info)
        && needs_access(element, options, vocabulary) {
        let taken = taken_v(state.place, state.ctx);
        (
            StateV { place: taken.0, ctx: taken.1, ..state },
            InfoV { forced_id: Some(taken.2), ..info },
        )
    } else {
        (state, info)
    }
}

/// Takes in an element among the children.  The head of a document that is
/// hydrated is left alone, and is not walked over.
#[verifier::opaque]
pub open spec fn placed_v(
    element: JsxElement,
    reached: bool,
    child: ResultV,
    setting: Setting,
    state: StateV,
) -> StateV {
    let shown = StateV { result: state.result.with_child_template(child), ..state };
    if setting.hydratable && element.tag@ == "head"@ {
        StateV {
            result: shown.result.with_expr(no_hydration_v(element.span)),
            ctx: shown.ctx.register("createComponent"@).register("NoHydration"@),
            ..shown
        }
    } else {
        let run = StateV { result: shown.result.with_child(child), ..shown };
        let held = if child.id is Some {
            if reached {
                StateV { place: run.place.settled(child.id->0), ..run }
            } else {
                run
            }
        } else if setting.track && reached && run.result.id is Some && run.place.here is None {
            run.declared_next(run.result.id->0).0
        } else {
            run
        };
        held.advanced()
    }
}

/// One of the children.
pub open spec fn child_v(
    children: Seq<JsxChild>,
    at: nat,
    setting: Setting,
    parent_tag: Seq<char>,
    info: InfoV,
    state: StateV,
    options: TransformOptions,
    vocabulary: Vocabulary,
) -> StateV
    decreases children, at,
{
    if at >= children.len() {
        state
    } else {
        match children[at as int] {
            JsxChild::Text(text) => text_child_v(
                text,
                children,
                at,
                setting,
                state,
                options,
                vocabulary,
            ),
            JsxChild::Container { span, expr } => match expr {
                None => state,
                Some(expr) => expr_child_v(
                    span,
                    *expr,
                    children,
                    at,
                    setting,
                    state,
                    options,
                    vocabulary,
                ),
            },
            JsxChild::Spread { span, expr } => spread_child_v(
                span,
                *expr,
                children,
                at,
                setting,
                state,
                options,
                vocabulary,
            ),
            JsxChild::Fragment(fragment) => list_v(
                fragment.children@,
                parent_tag,
                info,
                state,
                options,
                vocabulary,
            ),
            JsxChild::Element(element) => if element.is_component {
                component_child_v(*element, children, at, setting, state, options, vocabulary)
            } else {
                let start = state.with_last_was_text(false).with_placeholder(None);
                let told = child_info_v(
                    element.tag@,
                    last_of(children, children.len(), last_asked(setting.hydratable)) == Some(at),
                    parent_tag,
                    info,
                    start.place,
                    setting.hydratable,
                );
                let (ready, told) = forced_v(
                    *element,
                    told,
                    setting,
                    start,
                    options,
                    vocabulary,
                );
                let (child, ctx) = element_v(*element, told, ready.ctx, options, vocabulary);
                placed_v(
                    *element,
                    is_reached(told),
                    child,
                    setting,
                    StateV { ctx, ..ready },
                )
            },
        }
    }
}

/// The first `n` children, in their order.
pub open spec fn items_v(
    children: Seq<JsxChild>,
    n: nat,
    setting: Setting,
    parent_tag: Seq<char>,
    info: InfoV,
    state: StateV,
    options: TransformOptions,
    vocabulary: Vocabulary,
) -> StateV
    decreases children, n,
{
    if n == 0 || n > children.len() {
        state
    } else {
        let before = items_v(
            children,
            (n - 1) as nat,
            setting,
            parent_tag,
            info,
            state,
            options,
            vocabulary,
        );
        child_v(
            children,
            (n - 1) as nat,
            setting,
            parent_tag,
            info,
            before,
            options,
            vocabulary,
        )
    }
}

/// A child that the next match is searched for when hydrating `html`.
pub open spec fn is_matched(child: JsxChild) -> bool {
    child matches JsxChild::Element(element) && !element.is_component && element.tag@ != "head"@
}

pub open spec fn any_matched(children: Seq<JsxChild>) -> bool {
    exists|i: int| 0 <= i < children.len() && is_matched(#[trigger] children[i])
}

/// The components among the first `n` children are reached.
pub open spec fn components_v(children: Seq<JsxChild>, n: nat, ctx: ContextV) -> ContextV
    decreases n,
{
    if n == 0 || n > children.len() {
        ctx
    } else {
        let before = components_v(children, (n - 1) as nat, ctx);
        match children[n - 1] {
            JsxChild::Element(element) => if element.is_component {
                before.reaching(*element)
            } else {
                before
            },
            _ => before,
        }
    }
}

/// All children of a list.
pub open spec fn list_v(
    children: Seq<JsxChild>,
    parent_tag: Seq<char>,
    info: InfoV,
    state: StateV,
    options: TransformOptions,
    vocabulary: Vocabulary,
) -> StateV
    decreases children, children.len() + 1,
{
    let ctx = if options.hydratable && parent_tag == "html"@ && any_matched(children) {
        state.ctx.register("getNextMatch"@)
    } else {
        state.ctx
    };
    let setting = setting_v(children, state.result.id is Some, options, vocabulary);
    let ctx = if setting.lowers_first() {
        components_v(children, children.len(), ctx)
    } else {
        ctx
    };
    items_v(
        children,
        children.len(),
        setting,
        parent_tag,
        info,
        StateV { ctx, ..state },
        options,
        vocabulary,
    )
}

/// Before the first node.
pub open spec fn at_start() -> PlaceV {
    PlaceV { passed: seq![], here: None, last_was_text: false, placeholder: None, pool: seq![] }
}

/// An element behind its children.
#[verifier::opaque]
pub open spec fn finished_v(
    element: JsxElement,
    info: InfoV,
    result: ResultV,
    ctx: ContextV,
    options: TransformOptions,
    vocabulary: Vocabulary,
) -> (ResultV, ContextV) {
    let end = "</"@ + element.tag@ + ">"@;
    let closed = if vocabulary.is_void(element.tag@) {
        result
    } else if info.closes(element.tag@, options) {
        result.with_template(end).with_closed(end)
    } else {
        result.with_closed(end)
    };
    let whole = if is_wrapped(element.tag@, info.top_level, vocabulary) {
        closed.with_both("</svg>"@)
    } else {
        closed
    };
    if info.top_level && options.hydratable && whole.has_hydratable_event {
        (
            whole.with_post_expr(call_v(no_span(), el_v("runHydrationEvents"@), seq![])),
            ctx.register("runHydrationEvents"@),
        )
    } else {
        (whole, ctx)
    }
}

/// An element of the platform.
pub open spec fn element_v(
    element: JsxElement,
    info: InfoV,
    ctx: ContextV,
    options: TransformOptions,
    vocabulary: Vocabulary,
) -> (ResultV, ContextV)
    decreases element, 0nat,
{
    if options.hydratable && element.tag@ == "head"@ && info.top_level {
        (
            base_v(element, true, options, vocabulary).with_expr(no_hydration_v(element.span)),
            ctx.register("createComponent"@).register("NoHydration"@),
        )
    } else {
        let (opened, ctx) = opened_v(element, info, ctx, options, vocabulary);
        if vocabulary.is_void(element.tag@) || element.tag@ == "noscript"@ {
            finished_v(element, info, opened, ctx, options, vocabulary)
        } else {
            let done = list_v(
                element.children@,
                element.tag@,
                info.below(element.tag@, opened.id, options, vocabulary),
                StateV {
                    result: ResultV { post_exprs: seq![], ..opened },
                    ctx,
                    place: at_start(),
                },
                options,
                vocabulary,
            );
            let filled = ResultV {
                post_exprs: done.result.post_exprs + opened.post_exprs,
                ..done.result
            };
            finished_v(element, info, filled, done.ctx, options, vocabulary)
        }
    }
}

/// An element can be transformed: it has its variable where that is needed,
/// and no element below is left to another renderer.
pub open spec fn is_placeable(
    element: JsxElement,
    top_level: bool,
    skip_id: bool,
    options: TransformOptions,
    vocabulary: Vocabulary,
) -> bool
    decreases element,
{
    ||| options.hydratable && element.tag@ == "head"@ && top_level
    ||| {
        &&& (!skip_id && (top_level || needs_access(element, options, vocabulary)))
            || !id_is_needed(element, options, vocabulary)
        &&& vocabulary.is_void(element.tag@) || element.tag@ == "noscript"@ || forall|i: int|
            0 <= i < element.children@.len() ==> child_is_placeable(
                #[trigger] element.children@[i],
                skip_id,
                options,
                vocabulary,
            )
    }
}

pub open spec fn child_is_placeable(
    child: JsxChild,
    skip_id: bool,
    options: TransformOptions,
    vocabulary: Vocabulary,
) -> bool
    decreases child,
{
    match child {
        JsxChild::Element(element) => element.is_component || (!(options.generate is Dynamic
            && options.universal_renders(element.tag@)) && is_placeable(
            *element,
            false,
            skip_id,
            options,
            vocabulary,
        )),
        JsxChild::Fragment(fragment) => forall|i: int|
            0 <= i < fragment.children@.len() ==> child_is_placeable(
                #[trigger] fragment.children@[i],
                skip_id,
                options,
                vocabulary,
            ),
        _ => true,
    }
}

/// What an element among the children is told.
fn info_for_child(
    tag: &str,
    is_last: bool,
    parent_tag: &str,
    info: &TransformInfo,
    place: &Place,
    hydratable: bool,
) -> (told: TransformInfo)
    ensures
        told@ == child_info_v(tag@, is_last, parent_tag@, info@, place@, hydratable),
{
    let (root_id, path) = place.child_walk_context(&info.root_id, &info.path);
    let mut told = info.duplicate();
    told.top_level = false;
    told.last_element = is_last;
    told.path = path;
    told.root_id = root_id;
    told.forced_id = None;
    if hydratable && same(parent_tag, "html") {
        told.match_tag = Some(copied(tag));
    }
    told
}

/// Hands a kept variable to an element among the children.
fn force_id(
    element: &JsxElement,
    info: &mut TransformInfo,
    setting: Setting,
    result: &TransformResult,
    context: &mut BlockContext,
    place: &mut Place,
    options: &TransformOptions,
    vocabulary: &Vocabulary,
)
    ensures
        (
            StateV { result: result@, ctx: final(context)@, place: final(place)@ },
            final(info)@,
        ) == forced_v(
            *element,
            old(info)@,
            setting,
            StateV { result: result@, ctx: old(context)@, place: old(place)@ },
            *options,
            *vocabulary,
        ),
{
    proof {
        reveal(forced_v);
    }
    if setting.track && place.pool.len() > 0 && !info.skip_id && info.root_id.is_some()
        && info.path.len() > 0 && element_needs_runtime_access(element, options, vocabulary) {
        let id = place.take_static_walker_id(context);
        info.forced_id = Some(id);
    }
}

/// `createComponent(NoHydration, {})`.
fn no_hydration(span: Span, context: &mut BlockContext) -> (expr: Rc<Expr>)
    ensures
        expr@ == no_hydration_v(span),
        final(context)@ == old(context)@.register("createComponent"@).register("NoHydration"@),
{
    context.register_helper("createComponent");
    context.register_helper("NoHydration");
    call2(nowhere(), el("createComponent"), el("NoHydration"), empty_object(span))
}

/// Takes in an element among the children.
fn place_child(
    element: &JsxElement,
    reached: bool,
    child: TransformResult,
    setting: Setting,
    result: &mut TransformResult,
    context: &mut BlockContext,
    place: &mut Place,
)
    ensures
        (StateV { result: final(result)@, ctx: final(context)@, place: final(place)@ })
            == placed_v(
            *element,
            reached,
            child@,
            setting,
            StateV { result: old(result)@, ctx: old(context)@, place: old(place)@ },
        ),
{
    proof {
        reveal(placed_v);
    }
    result.push_child_template(&child);
    if setting.hydratable && same(element.tag.as_str(), "head") {
        let expr = no_hydration(element.span, context);
        result.push_expr(expr);
        return;
    }
    let child_id = child.id_copy();
    result.push_child(child);
    if let Some(id) = child_id {
        if reached {
            place.settle(id);
        }
    } else if setting.track && reached {
        if let Some(parent) = result.id_copy() {
            if place.here.is_none() {
                let id = place.take_static_walker_id(context);
                declare_node(parent.as_str(), id, result, place);
            }
        }
    }
    place.advance();
}

fn any_child_matched(children: &Vec<JsxChild>) -> (yes: bool)
    ensures
        yes == any_matched(children@),
{
    let mut i: usize = 0;
    while i < children.len()
        invariant
            i <= children.len(),
            forall|k: int| 0 <= k < i ==> !is_matched(#[trigger] children@[k]),
        decreases children.len() - i,
    {
        if let JsxChild::Element(element) = &children[i] {
            if !element.is_component && !same(element.tag.as_str(), "head") {
                return true;
            }
        }
        i = i + 1;
    }
    false
}

/// An element behind its children.
fn finish_element(
    element: &JsxElement,
    info: &TransformInfo,
    result: &mut TransformResult,
    context: &mut BlockContext,
    options: &TransformOptions,
    vocabulary: &Vocabulary,
)
    ensures
        (final(result)@, final(context)@) == finished_v(
            *element,
            info@,
            old(result)@,
            old(context)@,
            *options,
            *vocabulary,
        ),
{
    proof {
        reveal(finished_v);
    }
    let tag = element.tag.as_str();
    if !vocabulary.void(tag) {
        let end = joined(joined("</", tag).as_str(), ">");
        if info.should_close_tag(tag, options) {
            result.push_template_text(end.as_str());
        }
        result.push_closed(end.as_str());
    }
    if info.top_level && !same(tag, "svg") && vocabulary.svg(tag) {
        result.push_both("</svg>");
    }
    if info.top_level && options.hydratable && result.hydratable_event() {
        context.register_helper("runHydrationEvents");
        result.push_post_expr(call0(nowhere(), el("runHydrationEvents")));
    }
}

/// One of the children.
fn transform_child(
    children: &Vec<JsxChild>,
    at: usize,
    setting: Setting,
    last: Option<usize>,
    parent_tag: &str,
    info: &TransformInfo,
    result: &mut TransformResult,
    context: &mut BlockContext,
    place: &mut Place,
    options: &TransformOptions,
    vocabulary: &Vocabulary,
)
    requires
        at < children.len(),
        child_is_placeable(children@[at as int], info@.skip_id, *options, *vocabulary),
        match last {
            None => last_of(children@, children@.len(), last_asked(setting.hydratable)) is None,
            Some(last) => last_of(children@, children@.len(), last_asked(setting.hydratable))
                == Some(last as nat),
        },
    ensures
        (StateV { result: final(result)@, ctx: final(context)@, place: final(place)@ }) == child_v(
            children@,
            at as nat,
            setting,
            parent_tag@,
            info@,
            StateV { result: old(result)@, ctx: old(context)@, place: old(place)@ },
            *options,
            *vocabulary,
        ),
    decreases children, at,
{
    proof {
        reveal_with_fuel(child_is_placeable, 2);
    }
    match &children[at] {
        JsxChild::Text(text) => {
            transform_text_child(
                text,
                children,
                at,
                setting,
                result,
                context,
                place,
                options,
                vocabulary,
            );
        },
        JsxChild::Container { span, expr } => {
            if let Some(expr) = expr {
                transform_expr_child(
                    *span,
                    expr,
                    children,
                    at,
                    setting,
                    result,
                    context,
                    place,
                    options,
                    vocabulary,
                );
            }
        },
        JsxChild::Spread { span, expr } => {
            transform_spread_child(
                *span,
                expr,
                children,
                at,
                setting,
                result,
                context,
                place,
                options,
                vocabulary,
            );
        },
        JsxChild::Fragment(fragment) => {
            transform_children(
                &fragment.children,
                parent_tag,
                info,
                result,
                context,
                place,
                options,
                vocabulary,
            );
        },
        JsxChild::Element(element) => {
            if element.is_component {
                transform_component_child(
                    element,
                    children,
                    at,
                    setting,
                    result,
                    context,
                    place,
                    options,
                    vocabulary,
                );
            } else {
                place.last_was_text = false;
                place.placeholder = None;
                let is_last = match last {
                    Some(last) => last == at,
                    None => false,
                };
                let mut told = info_for_child(
                    element.tag.as_str(),
                    is_last,
                    parent_tag,
                    info,
                    place,
                    setting.hydratable,
                );
                proof {
                    reveal(forced_v);
                }
                force_id(
                    element,
                    &mut told,
                    setting,
                    result,
                    context,
                    place,
                    options,
                    vocabulary,
                );
                let child = transform_element(element, &told, context, options, vocabulary);
                let reached = told.root_id.is_some() && told.path.len() > 0;
                place_child(element, reached, child, setting, result, context, place);
            }
        },
    }
}

/// Reaches the components among the children.
fn reach_components(children: &Vec<JsxChild>, context: &mut BlockContext)
    ensures
        final(context)@ == components_v(children@, children@.len(), old(context)@),
{
    let mut i: usize = 0;
    while i < children.len()
        invariant
            i <= children@.len(),
            context@ == components_v(children@, i as nat, old(context)@),
        decreases children@.len() - i,
    {
        if let JsxChild::Element(element) = &children[i] {
            if element.is_component {
                context.reach(element);
            }
        }
        i = i + 1;
    }
}

/// All children of a list.
fn transform_children(
    children: &Vec<JsxChild>,
    parent_tag: &str,
    info: &TransformInfo,
    result: &mut TransformResult,
    context: &mut BlockContext,
    place: &mut Place,
    options: &TransformOptions,
    vocabulary: &Vocabulary,
)
    requires
        forall|i: int|
            0 <= i < children@.len() ==> child_is_placeable(
                #[trigger] children@[i],
                info@.skip_id,
                *options,
                *vocabulary,
            ),
    ensures
        (StateV { result: final(result)@, ctx: final(context)@, place: final(place)@ }) == list_v(
            children@,
            parent_tag@,
            info@,
            StateV { result: old(result)@, ctx: old(context)@, place: old(place)@ },
            *options,
            *vocabulary,
        ),
    decreases children, children.len() + 1,
{
    if options.hydratable && same(parent_tag, "html") {
        if any_child_matched(children) {
            context.register_helper("getNextMatch");
        }
    }
    let has_id = result.id_copy().is_some();
    let setting = Setting {
        single: is_single_dynamic_child(children),
        multi: has_multiple_meaningful_children(children),
        has_component: any_child_has(children, Asked::Component),
        track: has_id && any_dynamic_insert(children, options, vocabulary),
        hydratable: options.hydratable,
    };
    if setting.hydratable && setting.has_component {
        reach_components(children, context);
    }
    let last = find_last_element_index(children, options.hydratable);
    let ghost start = StateV { result: result@, ctx: context@, place: place@ };
    let mut i: usize = 0;
    while i < children.len()
        invariant
            i <= children.len(),
            setting.hydratable == options.hydratable,
            match last {
                None => last_of(
                    children@,
                    children@.len(),
                    last_asked(setting.hydratable),
                ) is None,
                Some(last) => last_of(
                    children@,
                    children@.len(),
                    last_asked(setting.hydratable),
                ) == Some(last as nat),
            },
            forall|i: int|
                0 <= i < children@.len() ==> child_is_placeable(
                    #[trigger] children@[i],
                    info@.skip_id,
                    *options,
                    *vocabulary,
                ),
            (StateV { result: result@, ctx: context@, place: place@ }) == items_v(
                children@,
                i as nat,
                setting,
                parent_tag@,
                info@,
                start,
                *options,
                *vocabulary,
            ),
        decreases children.len() - i,
    {
        transform_child(
            children,
            i,
            setting,
            last,
            parent_tag,
            info,
            result,
            context,
            place,
            options,
            vocabulary,
        );
        i = i + 1;
    }
}

/// Transforms an element of the platform.
pub fn transform_element(
    element: &JsxElement,
    info: &TransformInfo,
    context: &mut BlockContext,
    options: &TransformOptions,
    vocabulary: &Vocabulary,
) -> (result: TransformResult)
    requires
        is_placeable(*element, info@.top_level, info@.skip_id, *options, *vocabulary),
    ensures
        (result@, final(context)@) == element_v(
            *element,
            info@,
            old(context)@,
            *options,
            *vocabulary,
        ),
    decreases element, 0nat,
{
    proof {
        reveal_with_fuel(is_placeable, 2);
    }
    let tag = element.tag.as_str();
    if options.hydratable && same(tag, "head") && info.top_level {
        let mut result = begin_element(element, true, options, vocabulary);
        let expr = no_hydration(element.span, context);
        result.push_expr(expr);
        return result;
    }
    let mut result = open_element(element, info, context, options, vocabulary);
    if !vocabulary.void(tag) && !same(tag, "noscript") {
        let id = result.id_copy();
        let told = info.for_children(tag, &id, options, vocabulary);
        let own = result.take_post_exprs();
        let mut place = Place::start();
        transform_children(
            &element.children,
            tag,
            &told,
            &mut result,
            context,
            &mut place,
            options,
            vocabulary,
        );
        result.append_post_exprs(own);
    }
    finish_element(element, info, &mut result, context, options, vocabulary);
    result
}

} // verus!
