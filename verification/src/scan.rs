//! What lies among the children of an element, told before they are
//! transformed.

use crate::ast::{Expr, JsxAttr, JsxChild, JsxElement, JsxValue};
use crate::ir::ContextV;
use crate::options::TransformOptions;
use crate::outside::same;
use crate::statics;
use crate::statics::{evaluate_v, text_is_known, Answer};
use crate::text::{has_char, has_prefix, starts_with};
use crate::vocabulary::Vocabulary;
use vstd::prelude::*;

verus! {

/// The text that an expression prints, where it is known.
pub open spec fn text_of(expr: Expr) -> Option<Seq<char>> {
    match expr.facts.static_text {
        Some(value) => Some(value@.text()),
        None => None,
    }
}

/// Where what is noted of an expression is what it folds to, it prints the text
/// of that value.
pub proof fn noted_text_is_folded(expr: Expr, ctx: ContextV, table: Seq<Answer>)
    requires
        text_is_known(expr, ctx, table),
    ensures
        text_of(expr) == (match statics::text_of(evaluate_v(expr, ctx, table)) {
            Some(value) => Some(value.text()),
            None => None,
        }),
{
}

/// The text that an expression prints, where it is known.
pub fn static_child_text(expr: &Expr) -> (text: Option<String>)
    ensures
        match text {
            Some(text) => text_of(*expr) == Some(text@),
            None => text_of(*expr) is None,
        },
{
    match &expr.facts.static_text {
        Some(value) => Some(value.as_text()),
        None => None,
    }
}

/// What is asked of a child; a fragment has it where one of its children has.
#[derive(Copy, Clone, PartialEq, Eq, Structural, Debug)]
pub enum Asked {
    /// It is text in the template.
    Text,
    /// It is a node in the template.
    Anchor,
    /// It stands for something.
    Meaning,
    /// It is a component.
    Component,
}

/// A child has what is asked.
pub open spec fn answers(child: JsxChild, asked: Asked) -> bool
    decreases child,
{
    match child {
        JsxChild::Text(text) => !(asked is Component) && text.content@.len() > 0,
        JsxChild::Element(element) => match asked {
            Asked::Text => false,
            Asked::Anchor => !element.is_component,
            Asked::Meaning => true,
            Asked::Component => element.is_component,
        },
        JsxChild::Fragment(fragment) => exists|i: int|
            0 <= i < fragment.children@.len() && answers(#[trigger] fragment.children@[i], asked),
        JsxChild::Container { span, expr } => match expr {
            None => false,
            Some(expr) => match asked {
                Asked::Text => text_of(*expr) is Some,
                Asked::Anchor => text_of(*expr) is Some,
                Asked::Meaning => true,
                Asked::Component => false,
            },
        },
        JsxChild::Spread { .. } => asked is Meaning,
    }
}

/// Some child has what is asked.
pub open spec fn any_answers(children: Seq<JsxChild>, asked: Asked) -> bool {
    exists|i: int| 0 <= i < children.len() && answers(#[trigger] children[i], asked)
}

/// A child has what is asked.
pub fn child_has(child: &JsxChild, asked: Asked) -> (yes: bool)
    ensures
        yes == answers(*child, asked),
    decreases child,
{
    proof {
        reveal_with_fuel(answers, 2);
    }
    match child {
        JsxChild::Text(text) => {
            if let Asked::Component = asked {
                false
            } else {
                text.content.as_str().unicode_len() > 0
            }
        },
        JsxChild::Element(element) => match asked {
            Asked::Text => false,
            Asked::Anchor => !element.is_component,
            Asked::Meaning => true,
            Asked::Component => element.is_component,
        },
        JsxChild::Fragment(fragment) => any_child_has(&fragment.children, asked),
        JsxChild::Container { expr, .. } => match expr {
            None => false,
            Some(expr) => match asked {
                Asked::Text => expr.facts.static_text.is_some(),
                Asked::Anchor => expr.facts.static_text.is_some(),
                Asked::Meaning => true,
                Asked::Component => false,
            },
        },
        JsxChild::Spread { .. } => match asked {
            Asked::Meaning => true,
            _ => false,
        },
    }
}

/// Some child has what is asked.
pub fn any_child_has(children: &Vec<JsxChild>, asked: Asked) -> (yes: bool)
    ensures
        yes == any_answers(children@, asked),
    decreases children,
{
    let mut i: usize = 0;
    while i < children.len()
        invariant
            i <= children.len(),
            forall|k: int| 0 <= k < i ==> !answers(#[trigger] children@[k], asked),
        decreases children.len() - i,
    {
        if child_has(&children[i], asked) {
            return true;
        }
        i = i + 1;
    }
    false
}

/// The children are one expression and nothing else.
pub open spec fn is_single(children: Seq<JsxChild>) -> bool
    decreases children,
{
    &&& singles(children, children.len()) == 1
    &&& forall|i: int| 0 <= i < children.len() ==> !is_beside(#[trigger] children[i])
}

/// A child is a single expression.
pub open spec fn is_single_child(child: JsxChild) -> bool
    decreases child,
{
    match child {
        JsxChild::Container { span, expr: Some(expr) } => text_of(*expr) is None,
        JsxChild::Fragment(fragment) => is_single(fragment.children@),
        _ => false,
    }
}

/// A child is something other than a single expression.
pub open spec fn is_beside(child: JsxChild) -> bool
    decreases child,
{
    match child {
        JsxChild::Text(text) => text.content@.len() > 0,
        JsxChild::Element(_) => true,
        JsxChild::Container { span, expr: Some(expr) } => text_of(*expr) is Some,
        JsxChild::Fragment(fragment) => !is_single(fragment.children@),
        _ => false,
    }
}

/// How many of the first `n` children are single expressions.
pub open spec fn singles(children: Seq<JsxChild>, n: nat) -> nat
    decreases children, n,
{
    if n == 0 || n > children.len() {
        0
    } else {
        singles(children, (n - 1) as nat) + if is_single_child(children[n - 1]) {
            1nat
        } else {
            0
        }
    }
}

fn single_child(child: &JsxChild) -> (yes: bool)
    ensures
        yes == is_single_child(*child),
    decreases child,
{
    proof {
        reveal_with_fuel(is_single_child, 2);
    }
    match child {
        JsxChild::Container { expr: Some(expr), .. } => expr.facts.static_text.is_none(),
        JsxChild::Fragment(fragment) => is_single_dynamic_child(&fragment.children),
        _ => false,
    }
}

fn child_is_beside(child: &JsxChild) -> (yes: bool)
    ensures
        yes == is_beside(*child),
    decreases child,
{
    proof {
        reveal_with_fuel(is_beside, 2);
    }
    match child {
        JsxChild::Text(text) => text.content.as_str().unicode_len() > 0,
        JsxChild::Element(_) => true,
        JsxChild::Container { expr: Some(expr), .. } => expr.facts.static_text.is_some(),
        JsxChild::Fragment(fragment) => !is_single_dynamic_child(&fragment.children),
        _ => false,
    }
}

/// The children are one expression and nothing else.
pub fn is_single_dynamic_child(children: &Vec<JsxChild>) -> (yes: bool)
    ensures
        yes == is_single(children@),
    decreases children,
{
    let mut found: bool = false;
    let mut i: usize = 0;
    proof {
        reveal_with_fuel(is_single, 2);
        reveal_with_fuel(is_beside, 2);
        reveal_with_fuel(singles, 2);
        reveal_with_fuel(is_single_child, 2);
    }
    while i < children.len()
        invariant
            i <= children.len(),
            singles(children@, i as nat) == if found {
                1nat
            } else {
                0
            },
            forall|k: int| 0 <= k < i ==> !is_beside(#[trigger] children@[k]),
        decreases children.len() - i,
    {
        proof {
            reveal_with_fuel(singles, 2);
            reveal_with_fuel(is_single_child, 2);
            reveal_with_fuel(is_single, 2);
            reveal_with_fuel(is_beside, 2);
        }
        if child_is_beside(&children[i]) {
            return false;
        }
        if single_child(&children[i]) {
            if found {
                proof {
                    singles_grow(children@, (i + 1) as nat, children@.len());
                }
                return false;
            }
            found = true;
        }
        i = i + 1;
    }
    found
}

proof fn singles_grow(children: Seq<JsxChild>, m: nat, n: nat)
    requires
        m <= n <= children.len(),
    ensures
        singles(children, m) <= singles(children, n),
    decreases n,
{
    if m < n {
        singles_grow(children, m, (n - 1) as nat);
    }
}

// ---------------------------------------------------------------------------
// Places among the children
// ---------------------------------------------------------------------------

/// More than one child stands for something.
pub open spec fn is_multi(children: Seq<JsxChild>) -> bool {
    exists|i: int, j: int|
        0 <= i < j < children.len() && answers(#[trigger] children[i], Asked::Meaning) && answers(
            #[trigger] children[j],
            Asked::Meaning,
        )
}

/// More than one child stands for something.
pub fn has_multiple_meaningful_children(children: &Vec<JsxChild>) -> (yes: bool)
    ensures
        yes == is_multi(children@),
{
    let mut first: Option<usize> = None;
    let mut i: usize = 0;
    while i < children.len()
        invariant
            i <= children.len(),
            match first {
                None => forall|k: int|
                    0 <= k < i ==> !answers(#[trigger] children@[k], Asked::Meaning),
                Some(at) => at < i && answers(children@[at as int], Asked::Meaning) && forall|
                    k: int,
                |
                    0 <= k < i && k != at ==> !answers(#[trigger] children@[k], Asked::Meaning),
            },
        decreases children.len() - i,
    {
        if child_has(&children[i], Asked::Meaning) {
            if let Some(at) = first {
                proof {
                    assert(answers(children@[at as int], Asked::Meaning));
                    assert(answers(children@[i as int], Asked::Meaning));
                }
                return true;
            }
            first = Some(i);
        }
        i = i + 1;
    }
    false
}

/// The last of the first `n` children that has what is asked.
pub open spec fn last_of(children: Seq<JsxChild>, n: nat, asked: Asked) -> Option<nat>
    decreases n,
{
    if n == 0 {
        None
    } else if answers(children[n - 1], asked) {
        Some((n - 1) as nat)
    } else {
        last_of(children, (n - 1) as nat, asked)
    }
}

/// What the last node of a template is asked for.
pub open spec fn last_asked(hydratable: bool) -> Asked {
    if hydratable {
        Asked::Meaning
    } else {
        Asked::Anchor
    }
}

/// The last node of the template among the children.
pub fn find_last_element_index(children: &Vec<JsxChild>, hydratable: bool) -> (last: Option<usize>)
    ensures
        match last {
            None => last_of(children@, children@.len(), last_asked(hydratable)) is None,
            Some(at) => at < children.len() && last_of(
                children@,
                children@.len(),
                last_asked(hydratable),
            ) == Some(at as nat),
        },
{
    let asked = if hydratable {
        Asked::Meaning
    } else {
        Asked::Anchor
    };
    let mut i: usize = children.len();
    while i > 0
        invariant
            i <= children.len(),
            asked == last_asked(hydratable),
            last_of(children@, i as nat, asked) == last_of(children@, children@.len(), asked),
        decreases i,
    {
        if child_has(&children[i - 1], asked) {
            return Some(i - 1);
        }
        i = i - 1;
    }
    None
}

/// A node of the template lies at or behind `start`.
pub open spec fn anchor_from(children: Seq<JsxChild>, start: int) -> bool {
    exists|i: int|
        start <= i < children.len() && answers(#[trigger] children[i], Asked::Anchor)
}

/// A node of the template lies at or behind `start`.
pub fn has_future_static_anchor(children: &Vec<JsxChild>, start: usize) -> (yes: bool)
    ensures
        yes == anchor_from(children@, start as int),
{
    let mut i: usize = start;
    while i < children.len()
        invariant
            start <= i,
            forall|k: int|
                start <= k < i && k < children@.len() ==> !answers(
                    #[trigger] children@[k],
                    Asked::Anchor,
                ),
        decreases children.len() - i,
    {
        if child_has(&children[i], Asked::Anchor) {
            return true;
        }
        i = i + 1;
    }
    false
}

/// The node before `at` is text.
pub open spec fn text_before(children: Seq<JsxChild>, at: nat) -> bool
    decreases at,
{
    if at == 0 {
        false
    } else if answers(children[at - 1], Asked::Text) {
        true
    } else if answers(children[at - 1], Asked::Anchor) {
        false
    } else {
        text_before(children, (at - 1) as nat)
    }
}

/// The node behind `at` is text.
pub open spec fn text_behind(children: Seq<JsxChild>, at: int) -> bool
    decreases children.len() - at,
{
    if at + 1 >= children.len() {
        false
    } else if answers(children[at + 1], Asked::Text) {
        true
    } else if answers(children[at + 1], Asked::Anchor) {
        false
    } else {
        text_behind(children, at + 1)
    }
}

/// The nodes before and behind `at` are text.
pub fn is_wrapped_by_text(children: &Vec<JsxChild>, at: usize) -> (yes: bool)
    requires
        at < children.len(),
    ensures
        yes == (text_before(children@, at as nat) && text_behind(children@, at as int)),
{
    let mut index: usize = at;
    let mut wrapped = false;
    while index > 0 && !wrapped
        invariant
            index <= at < children.len(),
            if wrapped {
                text_before(children@, at as nat)
            } else {
                text_before(children@, at as nat) == text_before(children@, index as nat)
            },
        decreases index,
    {
        index = index - 1;
        if child_has(&children[index], Asked::Text) {
            wrapped = true;
        } else if child_has(&children[index], Asked::Anchor) {
            return false;
        }
    }
    if !wrapped {
        return false;
    }
    index = at;
    while index + 1 < children.len()
        invariant
            at <= index < children.len(),
            text_before(children@, at as nat),
            text_behind(children@, at as int) == text_behind(children@, index as int),
        decreases children.len() - index,
    {
        index = index + 1;
        if child_has(&children[index], Asked::Text) {
            return true;
        }
        if child_has(&children[index], Asked::Anchor) {
            return false;
        }
    }
    false
}

// ---------------------------------------------------------------------------
// Elements that are needed at run time
// ---------------------------------------------------------------------------

/// An attribute has this name, without a namespace.
pub open spec fn is_named(attr: JsxAttr, name: Seq<char>) -> bool {
    attr matches JsxAttr::Named(attr) && attr.key@ == name
}

pub open spec fn has_named(attrs: Seq<JsxAttr>, name: Seq<char>) -> bool {
    exists|i: int| 0 <= i < attrs.len() && is_named(#[trigger] attrs[i], name)
}

/// Some attribute has this name.
pub fn any_named(attrs: &Vec<JsxAttr>, name: &str) -> (yes: bool)
    ensures
        yes == has_named(attrs@, name@),
{
    let mut i: usize = 0;
    while i < attrs.len()
        invariant
            i <= attrs.len(),
            forall|k: int| 0 <= k < i ==> !is_named(#[trigger] attrs@[k], name@),
        decreases attrs.len() - i,
    {
        if let JsxAttr::Named(attr) = &attrs[i] {
            if same(attr.key.as_str(), name) {
                return true;
            }
        }
        i = i + 1;
    }
    false
}

/// A custom element: its tag holds a hyphen, or it has the attribute `is`.
pub open spec fn is_custom(element: JsxElement) -> bool {
    element.tag@.contains('-') || has_named(element.attrs@, "is"@)
}

/// A custom element: its tag holds a hyphen, or it has the attribute `is`.
pub fn custom_element(element: &JsxElement) -> (yes: bool)
    ensures
        yes == is_custom(*element),
{
    has_char(element.tag.as_str(), '-') || any_named(&element.attrs, "is")
}

/// An attribute makes its element one that is needed at run time.
pub open spec fn attr_needs_access(attr: JsxAttr, vocabulary: Vocabulary) -> bool {
    match attr {
        JsxAttr::Named(attr) => attr.key@.contains(':') || attr.key@ == "ref"@
            || vocabulary.is_child_property(attr.key@) || (starts_with(attr.key@, "on"@)
            && attr.key@.len() > 2) || attr.value is Container,
        JsxAttr::Spread { .. } => true,
    }
}

fn attribute_needs_access(attr: &JsxAttr, vocabulary: &Vocabulary) -> (yes: bool)
    ensures
        yes == attr_needs_access(*attr, *vocabulary),
{
    match attr {
        JsxAttr::Named(attr) => {
            let key = attr.key.as_str();
            has_char(key, ':') || same(key, "ref") || vocabulary.child_property(key) || (has_prefix(
                key,
                "on",
            ) && key.unicode_len() > 2) || match &attr.value {
                JsxValue::Container { .. } => true,
                _ => false,
            }
        },
        JsxAttr::Spread { .. } => true,
    }
}

/// A child is inserted at run time.
pub open spec fn child_needs_access(child: JsxChild) -> bool
    decreases child,
{
    match child {
        JsxChild::Element(element) => element.is_component,
        JsxChild::Container { .. } => true,
        JsxChild::Fragment(fragment) => exists|i: int|
            0 <= i < fragment.children@.len() && child_needs_access(
                #[trigger] fragment.children@[i],
            ),
        _ => false,
    }
}

fn this_child_needs_access(child: &JsxChild) -> (yes: bool)
    ensures
        yes == child_needs_access(*child),
    decreases child,
{
    proof {
        reveal_with_fuel(child_needs_access, 2);
    }
    match child {
        JsxChild::Element(element) => element.is_component,
        JsxChild::Container { .. } => true,
        JsxChild::Fragment(fragment) => children_need_runtime_access(&fragment.children),
        _ => false,
    }
}

/// Some child is inserted at run time.
fn children_need_runtime_access(children: &Vec<JsxChild>) -> (yes: bool)
    ensures
        yes == exists|i: int|
            0 <= i < children@.len() && child_needs_access(#[trigger] children@[i]),
    decreases children,
{
    let mut i: usize = 0;
    while i < children.len()
        invariant
            i <= children.len(),
            forall|k: int| 0 <= k < i ==> !child_needs_access(#[trigger] children@[k]),
        decreases children.len() - i,
    {
        if this_child_needs_access(&children[i]) {
            return true;
        }
        i = i + 1;
    }
    false
}

/// An element is needed at run time.
pub open spec fn needs_access(
    element: JsxElement,
    options: TransformOptions,
    vocabulary: Vocabulary,
) -> bool {
    ||| options.context_to_custom_elements && (element.tag@ == "slot"@ || is_custom(element))
    ||| exists|i: int|
        0 <= i < element.attrs@.len() && attr_needs_access(
            #[trigger] element.attrs@[i],
            vocabulary,
        )
    ||| element.tag@ != "noscript"@ && exists|i: int|
        0 <= i < element.children@.len() && child_needs_access(#[trigger] element.children@[i])
}

/// An element is needed at run time.
pub fn element_needs_runtime_access(
    element: &JsxElement,
    options: &TransformOptions,
    vocabulary: &Vocabulary,
) -> (yes: bool)
    ensures
        yes == needs_access(*element, *options, *vocabulary),
{
    if options.context_to_custom_elements && (same(element.tag.as_str(), "slot") || custom_element(
        element,
    )) {
        return true;
    }
    let mut i: usize = 0;
    while i < element.attrs.len()
        invariant
            i <= element.attrs.len(),
            forall|k: int|
                0 <= k < i ==> !attr_needs_access(#[trigger] element.attrs@[k], *vocabulary),
        decreases element.attrs.len() - i,
    {
        if attribute_needs_access(&element.attrs[i], vocabulary) {
            return true;
        }
        i = i + 1;
    }
    !same(element.tag.as_str(), "noscript") && children_need_runtime_access(&element.children)
}

// ---------------------------------------------------------------------------
// Insertions
// ---------------------------------------------------------------------------

/// A child stands for nothing.
pub open spec fn is_blank_child(child: JsxChild) -> bool {
    match child {
        JsxChild::Text(text) => text.content@.len() == 0,
        JsxChild::Container { span, expr } => expr is None,
        _ => false,
    }
}

/// A child is a component, or an expression whose text is not known.
pub open spec fn is_inserted(child: JsxChild) -> bool {
    match child {
        JsxChild::Container { span, expr: Some(expr) } => text_of(*expr) is None,
        JsxChild::Element(element) => element.is_component,
        _ => false,
    }
}

/// The child before `at`, past those that stand for nothing, is inserted.
pub open spec fn inserted_before(children: Seq<JsxChild>, at: nat) -> bool
    decreases at,
{
    if at == 0 {
        false
    } else if is_blank_child(children[at - 1]) {
        inserted_before(children, (at - 1) as nat)
    } else {
        is_inserted(children[at - 1])
    }
}

/// A child holds something that is needed at run time.
pub open spec fn is_live(
    child: JsxChild,
    options: TransformOptions,
    vocabulary: Vocabulary,
) -> bool
    decreases child,
{
    match child {
        JsxChild::Container { span, expr: Some(expr) } => text_of(*expr) is None,
        JsxChild::Element(element) => element.is_component || needs_access(
            *element,
            options,
            vocabulary,
        ) || exists|i: int|
            0 <= i < element.children@.len() && is_live(
                #[trigger] element.children@[i],
                options,
                vocabulary,
            ),
        JsxChild::Fragment(fragment) => exists|i: int|
            0 <= i < fragment.children@.len() && is_live(
                #[trigger] fragment.children@[i],
                options,
                vocabulary,
            ),
        _ => false,
    }
}

/// A child at or behind `from` holds something that is needed at run time.
pub open spec fn live_from(
    children: Seq<JsxChild>,
    from: int,
    options: TransformOptions,
    vocabulary: Vocabulary,
) -> bool {
    exists|i: int|
        from <= i < children.len() && is_live(#[trigger] children[i], options, vocabulary)
}

fn child_is_live(child: &JsxChild, options: &TransformOptions, vocabulary: &Vocabulary) -> (yes:
    bool)
    ensures
        yes == is_live(*child, *options, *vocabulary),
    decreases child, 0nat,
{
    proof {
        reveal_with_fuel(is_live, 2);
    }
    match child {
        JsxChild::Container { expr: Some(expr), .. } => expr.facts.static_text.is_none(),
        JsxChild::Element(element) => element.is_component || element_needs_runtime_access(
            element,
            options,
            vocabulary,
        ) || any_live_from(&element.children, 0, options, vocabulary),
        JsxChild::Fragment(fragment) => any_live_from(
            &fragment.children,
            0,
            options,
            vocabulary,
        ),
        _ => false,
    }
}

fn any_live_from(
    children: &Vec<JsxChild>,
    from: usize,
    options: &TransformOptions,
    vocabulary: &Vocabulary,
) -> (yes: bool)
    ensures
        yes == live_from(children@, from as int, *options, *vocabulary),
    decreases children, 0nat,
{
    let mut i: usize = from;
    while i < children.len()
        invariant
            from <= i,
            forall|k: int|
                from <= k < i && k < children@.len() ==> !is_live(
                    #[trigger] children@[k],
                    *options,
                    *vocabulary,
                ),
        decreases children.len() - i,
    {
        if child_is_live(&children[i], options, vocabulary) {
            return true;
        }
        i = i + 1;
    }
    false
}

/// A text at `at` has to be walked over: something before or behind it is
/// needed at run time.
pub open spec fn is_walked(
    children: Seq<JsxChild>,
    at: nat,
    options: TransformOptions,
    vocabulary: Vocabulary,
) -> bool {
    inserted_before(children, at) || live_from(children, at as int, options, vocabulary)
}

/// A text at `at` has to be walked over.
pub fn detect_expressions(
    children: &Vec<JsxChild>,
    at: usize,
    options: &TransformOptions,
    vocabulary: &Vocabulary,
) -> (yes: bool)
    requires
        at < children.len(),
    ensures
        yes == is_walked(children@, at as nat, *options, *vocabulary),
{
    let mut index: usize = at;
    let mut looking = true;
    while index > 0 && looking
        invariant
            index <= at < children.len(),
            if looking {
                inserted_before(children@, at as nat) == inserted_before(children@, index as nat)
            } else {
                !inserted_before(children@, at as nat)
            },
        decreases index,
    {
        index = index - 1;
        let blank = match &children[index] {
            JsxChild::Text(text) => text.content.as_str().unicode_len() == 0,
            JsxChild::Container { expr, .. } => expr.is_none(),
            _ => false,
        };
        if !blank {
            let inserted = match &children[index] {
                JsxChild::Container { expr: Some(expr), .. } => expr.facts.static_text.is_none(),
                JsxChild::Element(element) => element.is_component,
                _ => false,
            };
            if inserted {
                return true;
            }
            looking = false;
        }
    }
    any_live_from(children, at, options, vocabulary)
}

/// A child makes its parent insert something.
pub open spec fn is_dynamic_insert(
    child: JsxChild,
    options: TransformOptions,
    vocabulary: Vocabulary,
) -> bool
    decreases child,
{
    match child {
        JsxChild::Text(_) => false,
        JsxChild::Spread { .. } => true,
        JsxChild::Fragment(fragment) => exists|i: int|
            0 <= i < fragment.children@.len() && is_dynamic_insert(
                #[trigger] fragment.children@[i],
                options,
                vocabulary,
            ),
        _ => is_live(child, options, vocabulary),
    }
}

fn child_has_dynamic_insert(
    child: &JsxChild,
    options: &TransformOptions,
    vocabulary: &Vocabulary,
) -> (yes: bool)
    ensures
        yes == is_dynamic_insert(*child, *options, *vocabulary),
    decreases child,
{
    proof {
        reveal_with_fuel(is_dynamic_insert, 2);
    }
    match child {
        JsxChild::Text(_) => false,
        JsxChild::Spread { .. } => true,
        JsxChild::Fragment(fragment) => any_dynamic_insert(&fragment.children, options, vocabulary),
        _ => child_is_live(child, options, vocabulary),
    }
}

pub open spec fn has_dynamic_insert(
    children: Seq<JsxChild>,
    options: TransformOptions,
    vocabulary: Vocabulary,
) -> bool {
    exists|i: int|
        0 <= i < children.len() && is_dynamic_insert(#[trigger] children[i], options, vocabulary)
}

/// Some child makes its parent insert something.
pub fn any_dynamic_insert(
    children: &Vec<JsxChild>,
    options: &TransformOptions,
    vocabulary: &Vocabulary,
) -> (yes: bool)
    ensures
        yes == has_dynamic_insert(children@, *options, *vocabulary),
    decreases children,
{
    let mut i: usize = 0;
    while i < children.len()
        invariant
            i <= children.len(),
            forall|k: int|
                0 <= k < i ==> !is_dynamic_insert(#[trigger] children@[k], *options, *vocabulary),
        decreases children.len() - i,
    {
        if child_has_dynamic_insert(&children[i], options, vocabulary) {
            return true;
        }
        i = i + 1;
    }
    false
}

} // verus!
