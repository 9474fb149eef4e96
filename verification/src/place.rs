//! The walk over the nodes of a template, and what is inserted between them.

use crate::ast::{no_span, nowhere, ExprV, Expr, JsxChild, Pattern, PatternV, Span};
use crate::attributes::{dom_helper_expr, dom_helper_v, el, el_v, mem, mem_v};
use crate::copy::copied_texts;
use crate::ir::{copied_option, opt, BlockContext, ContextV, ResultV, TransformResult};
use crate::make::{call1, call2, call3, call4, call_v, copied, null, null_v};
use crate::options::TransformOptions;
use crate::scan::{
    anchor_from, element_needs_runtime_access, has_future_static_anchor, is_wrapped_by_text,
    needs_access, text_before, text_behind, text_of,
};
use crate::text::texts;
use crate::vocabulary::Vocabulary;
use std::rc::Rc;
use vstd::prelude::*;

verus! {

// ---------------------------------------------------------------------------
// The walk
// ---------------------------------------------------------------------------

/// Where the walk over the nodes of a template is.
#[derive(Debug)]
pub struct Place {
    /// The variables of the nodes that lie behind, where they have one.
    pub passed: Vec<Option<String>>,
    /// The variable of the node that is next.
    pub here: Option<String>,
    /// The node before is text.
    pub last_was_text: bool,
    /// The variable of a comment before which may be inserted.
    pub placeholder: Option<String>,
    /// Variables that are kept for nodes to come.
    pub pool: Vec<String>,
}

pub ghost struct PlaceV {
    pub passed: Seq<Option<Seq<char>>>,
    pub here: Option<Seq<char>>,
    pub last_was_text: bool,
    pub placeholder: Option<Seq<char>>,
    pub pool: Seq<Seq<char>>,
}

pub open spec fn opts(items: Seq<Option<String>>) -> Seq<Option<Seq<char>>> {
    items.map_values(|o: Option<String>| opt(o))
}

impl View for Place {
    type V = PlaceV;

    open spec fn view(&self) -> PlaceV {
        PlaceV {
            passed: opts(self.passed@),
            here: opt(self.here),
            last_was_text: self.last_was_text,
            placeholder: opt(self.placeholder),
            pool: texts(self.pool@),
        }
    }
}

/// The last of the nodes that has a variable, and how many steps lie behind it.
pub open spec fn nearest(passed: Seq<Option<Seq<char>>>) -> Option<(nat, Seq<char>)>
    decreases passed.len(),
{
    if passed.len() == 0 {
        None
    } else {
        match passed.last() {
            Some(id) => Some((1, id)),
            None => match nearest(passed.drop_last()) {
                Some((steps, id)) => Some((steps + 1, id)),
                None => None,
            },
        }
    }
}

/// `n` steps of `nextSibling` from `expr`.
pub open spec fn siblings_v(expr: ExprV, n: nat) -> ExprV
    decreases n,
{
    if n == 0 {
        expr
    } else {
        mem_v(siblings_v(expr, (n - 1) as nat), "nextSibling"@)
    }
}

/// `n` times the step `nextSibling`.
pub open spec fn sibling_path(n: nat) -> Seq<Seq<char>> {
    Seq::new(n, |i: int| "nextSibling"@)
}

impl PlaceV {
    /// The expression of the next node: by way of the last node that has a
    /// variable, else from the parent on.
    pub open spec fn accessor(self, parent: Seq<char>) -> ExprV {
        match nearest(self.passed) {
            Some((steps, id)) => siblings_v(el_v(id), steps),
            None => siblings_v(mem_v(el_v(parent), "firstChild"@), self.passed.len()),
        }
    }

    /// From where the next node is walked to.
    pub open spec fn walk_root(self, root: Option<Seq<char>>) -> Option<Seq<char>> {
        match self.here {
            Some(id) => Some(id),
            None => match nearest(self.passed) {
                Some((steps, id)) => Some(id),
                None => root,
            },
        }
    }

    /// The steps in which the next node is walked to.
    pub open spec fn walk_path(self, path: Seq<Seq<char>>) -> Seq<Seq<char>> {
        match self.here {
            Some(id) => seq![],
            None => match nearest(self.passed) {
                Some((steps, id)) => sibling_path(steps),
                None => path.push("firstChild"@) + sibling_path(self.passed.len()),
            },
        }
    }

    pub open spec fn settled(self, id: Seq<char>) -> PlaceV {
        PlaceV { here: Some(id), ..self }
    }

    pub open spec fn advanced(self) -> PlaceV {
        PlaceV { passed: self.passed.push(self.here), here: None, ..self }
    }
}

proof fn nearest_skips(passed: Seq<Option<Seq<char>>>, n: int)
    requires
        0 <= n <= passed.len(),
        forall|k: int| n <= k < passed.len() ==> #[trigger] passed[k] is None,
    ensures
        nearest(passed) == match nearest(passed.take(n)) {
            Some((steps, id)) => Some(((steps + passed.len() - n) as nat, id)),
            None => None,
        },
    decreases passed.len(),
{
    if n == passed.len() {
        assert(passed.take(n) =~= passed);
    } else {
        nearest_skips(passed.drop_last(), n);
        assert(passed.drop_last().take(n) =~= passed.take(n));
    }
}

/// `n` steps of `nextSibling` from `expr`.
fn siblings(expr: Rc<Expr>, n: usize) -> (walked: Rc<Expr>)
    ensures
        walked@ == siblings_v(expr@, n as nat),
{
    let mut walked = expr;
    let mut i: usize = 0;
    while i < n
        invariant
            i <= n,
            walked@ == siblings_v(expr@, i as nat),
        decreases n - i,
    {
        walked = mem(walked, "nextSibling");
        i = i + 1;
    }
    walked
}

/// Adds `n` times the step `nextSibling`.
fn push_siblings(path: &mut Vec<String>, n: usize)
    ensures
        texts(final(path)@) == texts(old(path)@) + sibling_path(n as nat),
{
    let mut i: usize = 0;
    while i < n
        invariant
            i <= n,
            path@.len() == old(path)@.len() + i,
            forall|k: int| 0 <= k < old(path)@.len() ==> #[trigger] path@[k] == old(path)@[k],
            forall|k: int|
                old(path)@.len() <= k < path@.len() ==> #[trigger] path@[k]@ == "nextSibling"@,
        decreases n - i,
    {
        path.push(copied("nextSibling"));
        i = i + 1;
    }
    proof {
        assert(texts(path@) =~= texts(old(path)@) + sibling_path(n as nat));
    }
}

impl Place {
    /// Before the first node.
    pub fn start() -> (place: Place)
        ensures
            place@ == (PlaceV {
                passed: seq![],
                here: None,
                last_was_text: false,
                placeholder: None,
                pool: seq![],
            }),
    {
        let place = Place {
            passed: Vec::new(),
            here: None,
            last_was_text: false,
            placeholder: None,
            pool: Vec::new(),
        };
        proof {
            assert(opts(place.passed@) =~= seq![]);
            assert(texts(place.pool@) =~= seq![]);
        }
        place
    }

    fn nearest(&self) -> (found: Option<(usize, String)>)
        ensures
            match found {
                None => nearest(self@.passed) is None,
                Some((steps, id)) => nearest(self@.passed) == Some((steps as nat, id@)),
            },
    {
        let mut i: usize = self.passed.len();
        while i > 0
            invariant
                i <= self.passed.len(),
                forall|k: int| i <= k < self.passed.len() ==> #[trigger] self@.passed[k] is None,
            decreases i,
        {
            if let Some(id) = &self.passed[i - 1] {
                proof {
                    nearest_skips(self@.passed, i as int);
                    assert(self@.passed.take(i as int).last() == Some(id@));
                }
                return Some((self.passed.len() - (i - 1), id.clone()));
            }
            i = i - 1;
        }
        proof {
            nearest_skips(self@.passed, 0);
        }
        None
    }

    /// The expression of the next node.
    pub fn child_accessor(&self, parent: &str) -> (expr: Rc<Expr>)
        ensures
            expr@ == self@.accessor(parent@),
    {
        match self.nearest() {
            Some((steps, id)) => siblings(el(id.as_str()), steps),
            None => siblings(mem(el(parent), "firstChild"), self.passed.len()),
        }
    }

    /// From where, and in which steps, the next node is walked to.
    pub fn child_walk_context(&self, root: &Option<String>, path: &Vec<String>) -> (walk: (
        Option<String>,
        Vec<String>,
    ))
        ensures
            opt(walk.0) == self@.walk_root(opt(*root)),
            texts(walk.1@) == self@.walk_path(texts(path@)),
    {
        let mut steps_to: Vec<String> = Vec::new();
        proof {
            assert(texts(steps_to@) =~= seq![]);
        }
        if let Some(id) = &self.here {
            return (Some(id.clone()), steps_to);
        }
        if let Some((steps, id)) = self.nearest() {
            push_siblings(&mut steps_to, steps);
            proof {
                assert(texts(steps_to@) =~= sibling_path(steps as nat));
            }
            return (Some(id), steps_to);
        }
        let mut full = copied_texts(path);
        full.push(copied("firstChild"));
        proof {
            assert(texts(full@) =~= texts(path@).push("firstChild"@));
        }
        push_siblings(&mut full, self.passed.len());
        (copied_option(root), full)
    }

    pub fn settle(&mut self, id: String)
        ensures
            final(self)@ == old(self)@.settled(id@),
    {
        self.here = Some(id);
    }

    pub fn advance(&mut self)
        ensures
            final(self)@ == old(self)@.advanced(),
    {
        let mut here: Option<String> = None;
        std::mem::swap(&mut here, &mut self.here);
        self.passed.push(here);
        proof {
            assert(opts(self.passed@) =~= opts(old(self).passed@).push(opt(old(self).here)));
        }
    }
}

// ---------------------------------------------------------------------------
// Variables that are kept for nodes to come
// ---------------------------------------------------------------------------

/// A scan for nodes to come: whether the one before is text, the variables
/// that are kept, and the context.
pub ghost struct SlotsV {
    pub last_was_text: bool,
    pub pool: Seq<Seq<char>>,
    pub ctx: ContextV,
}

impl SlotsV {
    /// With one more variable.
    pub open spec fn with_slot(self) -> SlotsV {
        let fresh = self.ctx.uid("el$"@);
        SlotsV { pool: self.pool.push(fresh.1), ctx: fresh.0, ..self }
    }

    /// Past a text.
    pub open spec fn past_text(self, split: bool) -> SlotsV {
        let kept = if split || !self.last_was_text {
            self.with_slot()
        } else {
            self
        };
        SlotsV { last_was_text: true, ..kept }
    }
}

/// Past one child.
pub open spec fn slot_v(
    child: JsxChild,
    split: bool,
    runtime: bool,
    slots: SlotsV,
    options: TransformOptions,
    vocabulary: Vocabulary,
) -> SlotsV
    decreases child, 0nat,
{
    match child {
        JsxChild::Text(text) => if text.content@.len() > 0 {
            slots.past_text(split)
        } else {
            slots
        },
        JsxChild::Container { span, expr } => if expr matches Some(expr) && text_of(
            *expr,
        ) matches Some(text) && text.len() > 0 {
            slots.past_text(split)
        } else {
            SlotsV { last_was_text: false, ..slots }
        },
        JsxChild::Element(element) => {
            let kept = if !element.is_component && (runtime || !needs_access(
                *element,
                options,
                vocabulary,
            )) {
                slots.with_slot()
            } else {
                slots
            };
            SlotsV { last_was_text: false, ..kept }
        },
        JsxChild::Spread { .. } => SlotsV { last_was_text: false, ..slots },
        JsxChild::Fragment(fragment) => slots_v(
            fragment.children@,
            0,
            fragment.children@.len(),
            split,
            runtime,
            slots,
            options,
            vocabulary,
        ),
    }
}

/// Past the children from `from` to before `to`.
pub open spec fn slots_v(
    children: Seq<JsxChild>,
    from: nat,
    to: nat,
    split: bool,
    runtime: bool,
    slots: SlotsV,
    options: TransformOptions,
    vocabulary: Vocabulary,
) -> SlotsV
    decreases children, to,
{
    if to <= from || to > children.len() {
        slots
    } else {
        slot_v(
            children[to - 1],
            split,
            runtime,
            slots_v(children, from, (to - 1) as nat, split, runtime, slots, options, vocabulary),
            options,
            vocabulary,
        )
    }
}

/// The variables that are kept for the children from `from` on.
pub open spec fn reserved_v(
    children: Seq<JsxChild>,
    from: nat,
    split: bool,
    runtime: bool,
    place: PlaceV,
    ctx: ContextV,
    options: TransformOptions,
    vocabulary: Vocabulary,
) -> (PlaceV, ContextV) {
    if place.pool.len() > 0 {
        (place, ctx)
    } else {
        let slots = slots_v(
            children,
            from,
            children.len(),
            split,
            runtime,
            SlotsV { last_was_text: false, pool: seq![], ctx },
            options,
            vocabulary,
        );
        (PlaceV { pool: slots.pool, ..place }, slots.ctx)
    }
}

/// The next kept variable, or a fresh one.
pub open spec fn taken_v(place: PlaceV, ctx: ContextV) -> (PlaceV, ContextV, Seq<char>) {
    if place.pool.len() > 0 {
        (PlaceV { pool: place.pool.skip(1), ..place }, ctx, place.pool[0])
    } else {
        let fresh = ctx.uid("el$"@);
        (place, fresh.0, fresh.1)
    }
}

fn keep_slot(pool: &mut Vec<String>, context: &mut BlockContext)
    ensures
        forall|last_was_text: bool|
            (SlotsV { last_was_text, pool: texts(final(pool)@), ctx: final(context)@ })
                == #[trigger] (SlotsV {
                last_was_text,
                pool: texts(old(pool)@),
                ctx: old(context)@,
            }).with_slot(),
{
    let id = context.generate_uid("el$");
    pool.push(id);
    proof {
        assert(texts(pool@) =~= texts(old(pool)@).push(id@));
    }
}

fn collect_slot(
    child: &JsxChild,
    split: bool,
    runtime: bool,
    last_was_text: &mut bool,
    pool: &mut Vec<String>,
    context: &mut BlockContext,
    options: &TransformOptions,
    vocabulary: &Vocabulary,
)
    ensures
        (SlotsV {
            last_was_text: *final(last_was_text),
            pool: texts(final(pool)@),
            ctx: final(context)@,
        }) == slot_v(
            *child,
            split,
            runtime,
            SlotsV {
                last_was_text: *old(last_was_text),
                pool: texts(old(pool)@),
                ctx: old(context)@,
            },
            *options,
            *vocabulary,
        ),
    decreases child, 0nat,
{
    match child {
        JsxChild::Text(text) => {
            if text.content.as_str().unicode_len() > 0 {
                if split || !*last_was_text {
                    keep_slot(pool, context);
                }
                *last_was_text = true;
            }
        },
        JsxChild::Container { expr, .. } => {
            let printed = match expr {
                Some(expr) => match &expr.facts.static_text {
                    Some(value) => value.as_text().as_str().unicode_len() > 0,
                    None => false,
                },
                None => false,
            };
            if printed {
                if split || !*last_was_text {
                    keep_slot(pool, context);
                }
                *last_was_text = true;
            } else {
                *last_was_text = false;
            }
        },
        JsxChild::Element(element) => {
            if !element.is_component && (runtime || !element_needs_runtime_access(
                element,
                options,
                vocabulary,
            )) {
                keep_slot(pool, context);
            }
            *last_was_text = false;
        },
        JsxChild::Spread { .. } => {
            *last_was_text = false;
        },
        JsxChild::Fragment(fragment) => {
            collect_static_walker_slots(
                &fragment.children,
                0,
                split,
                runtime,
                last_was_text,
                pool,
                context,
                options,
                vocabulary,
            );
        },
    }
}

fn collect_static_walker_slots(
    children: &Vec<JsxChild>,
    from: usize,
    split: bool,
    runtime: bool,
    last_was_text: &mut bool,
    pool: &mut Vec<String>,
    context: &mut BlockContext,
    options: &TransformOptions,
    vocabulary: &Vocabulary,
)
    ensures
        (SlotsV {
            last_was_text: *final(last_was_text),
            pool: texts(final(pool)@),
            ctx: final(context)@,
        }) == slots_v(
            children@,
            from as nat,
            children@.len(),
            split,
            runtime,
            SlotsV {
                last_was_text: *old(last_was_text),
                pool: texts(old(pool)@),
                ctx: old(context)@,
            },
            *options,
            *vocabulary,
        ),
    decreases children, children.len(),
{
    let mut i: usize = from;
    while i < children.len()
        invariant
            from <= i,
            i <= children.len() || i == from,
            (SlotsV { last_was_text: *last_was_text, pool: texts(pool@), ctx: context@ })
                == slots_v(
                children@,
                from as nat,
                i as nat,
                split,
                runtime,
                SlotsV {
                    last_was_text: *old(last_was_text),
                    pool: texts(old(pool)@),
                    ctx: old(context)@,
                },
                *options,
                *vocabulary,
            ),
        decreases children.len() - i,
    {
        collect_slot(
            &children[i],
            split,
            runtime,
            last_was_text,
            pool,
            context,
            options,
            vocabulary,
        );
        i = i + 1;
    }
}

impl Place {
    /// Keeps variables for the children from `from` on, unless some are kept.
    pub fn reserve(
        &mut self,
        children: &Vec<JsxChild>,
        from: usize,
        split: bool,
        runtime: bool,
        context: &mut BlockContext,
        options: &TransformOptions,
        vocabulary: &Vocabulary,
    )
        ensures
            (final(self)@, final(context)@) == reserved_v(
                children@,
                from as nat,
                split,
                runtime,
                old(self)@,
                old(context)@,
                *options,
                *vocabulary,
            ),
    {
        if self.pool.len() == 0 {
            let mut last = false;
            let mut pool: Vec<String> = Vec::new();
            proof {
                assert(texts(pool@) =~= seq![]);
            }
            collect_static_walker_slots(
                children,
                from,
                split,
                runtime,
                &mut last,
                &mut pool,
                context,
                options,
                vocabulary,
            );
            self.pool = pool;
        }
    }

    /// The next kept variable, or a fresh one.
    pub fn take_static_walker_id(&mut self, context: &mut BlockContext) -> (id: String)
        ensures
            (final(self)@, final(context)@, id@) == taken_v(old(self)@, old(context)@),
    {
        if self.pool.len() > 0 {
            let id = self.pool.remove(0);
            proof {
                assert(texts(self.pool@) =~= texts(old(self).pool@).skip(1));
            }
            id
        } else {
            context.generate_uid("el$")
        }
    }
}

// ---------------------------------------------------------------------------
// Steps of the walk
// ---------------------------------------------------------------------------

/// The result of an element, the context, and the walk over its children.
pub ghost struct StateV {
    pub result: ResultV,
    pub ctx: ContextV,
    pub place: PlaceV,
}

impl StateV {
    /// The next node is held by the variable `id`.
    pub open spec fn declared(self, parent: Seq<char>, id: Seq<char>) -> StateV {
        StateV {
            result: self.result.with_declaration(
                PatternV::Ident(id),
                self.place.accessor(parent),
            ),
            place: self.place.settled(id),
            ..self
        }
    }

    /// The next node is held by the next variable.
    pub open spec fn declared_next(self, parent: Seq<char>) -> (StateV, Seq<char>) {
        let taken = taken_v(self.place, self.ctx);
        (StateV { place: taken.0, ctx: taken.1, ..self }.declared(parent, taken.2), taken.2)
    }

    /// The next node is held by a fresh variable.
    pub open spec fn declared_fresh(self, parent: Seq<char>) -> (StateV, Seq<char>) {
        let fresh = self.ctx.uid("el$"@);
        (StateV { ctx: fresh.0, ..self }.declared(parent, fresh.1), fresh.1)
    }

    pub open spec fn advanced(self) -> StateV {
        StateV { place: self.place.advanced(), ..self }
    }

    pub open spec fn with_both(self, text: Seq<char>) -> StateV {
        StateV { result: self.result.with_both(text), ..self }
    }

    pub open spec fn with_placeholder(self, placeholder: Option<Seq<char>>) -> StateV {
        StateV { place: PlaceV { placeholder, ..self.place }, ..self }
    }

    pub open spec fn with_last_was_text(self, last_was_text: bool) -> StateV {
        StateV { place: PlaceV { last_was_text, ..self.place }, ..self }
    }
}

/// Walks over a text.  A text behind another is the same node.
#[verifier::opaque]
pub open spec fn text_walk_v(state: StateV, walked: bool, has_component: bool) -> StateV {
    if !state.place.last_was_text {
        let past = if !walked {
            state
        } else if state.result.id is Some && state.place.here is None {
            state.declared_next(state.result.id->0).0.advanced()
        } else {
            state.advanced()
        };
        past.with_last_was_text(true)
    } else if walked && has_component {
        let taken = taken_v(state.place, state.ctx);
        StateV { place: taken.0, ctx: taken.1, ..state }
    } else {
        state
    }
}

/// Walks over a text.
pub fn walk_over_text(
    walked: bool,
    has_component: bool,
    result: &mut TransformResult,
    context: &mut BlockContext,
    place: &mut Place,
)
    ensures
        (StateV { result: final(result)@, ctx: final(context)@, place: final(place)@ })
            == text_walk_v(
            StateV { result: old(result)@, ctx: old(context)@, place: old(place)@ },
            walked,
            has_component,
        ),
{
    proof {
        reveal(text_walk_v);
    }
    if !place.last_was_text {
        if walked {
            if let Some(parent) = result.id_copy() {
                if place.here.is_none() {
                    let id = place.take_static_walker_id(context);
                    declare_node(parent.as_str(), id, result, place);
                }
            }
            place.advance();
        }
        place.last_was_text = true;
    } else if walked && has_component {
        let _burnt = place.take_static_walker_id(context);
    }
}

/// Holds the next node by the variable `id`.
pub fn declare_node(parent: &str, id: String, result: &mut TransformResult, place: &mut Place)
    ensures
        forall|ctx: ContextV|
            (StateV { result: final(result)@, ctx, place: final(place)@ }) == #[trigger] (StateV {
                result: old(result)@,
                ctx,
                place: old(place)@,
            }).declared(parent@, id@),
{
    let init = place.child_accessor(parent);
    result.push_declaration(Pattern::Ident(id.clone()), init);
    place.settle(id);
}

/// Opens and closes a pair of comments between which is inserted, and gives
/// the variables of the closing one and of what lies between.
#[verifier::opaque]
pub open spec fn markers_v(state: StateV, parent: Seq<char>) -> (StateV, Seq<char>, Seq<char>) {
    let opened = state.with_both("<!$>"@).declared_fresh(parent);
    let closed = opened.0.advanced().with_both("<!/>"@);
    let marker = closed.ctx.register("getNextMarker"@).uid("el$"@);
    let content = marker.0.uid("co$"@);
    let start = mem_v(el_v(opened.1), "nextSibling"@);
    let found = StateV {
        result: closed.result.with_declaration(
            PatternV::Array(seq![marker.1, content.1]),
            call_v(no_span(), el_v("getNextMarker"@), seq![start]),
        ),
        ctx: content.0,
        place: closed.place.settled(marker.1),
    };
    (found.advanced(), marker.1, content.1)
}

/// Opens and closes a pair of comments between which is inserted.
pub fn push_hydration_markers(
    parent: &str,
    result: &mut TransformResult,
    context: &mut BlockContext,
    place: &mut Place,
) -> (ids: (String, String))
    ensures
        (
            StateV { result: final(result)@, ctx: final(context)@, place: final(place)@ },
            ids.0@,
            ids.1@,
        ) == markers_v(
            StateV { result: old(result)@, ctx: old(context)@, place: old(place)@ },
            parent@,
        ),
{
    proof {
        reveal(markers_v);
    }
    result.push_both("<!$>");
    let open = context.generate_uid("el$");
    declare_node(parent, open.clone(), result, place);
    place.advance();
    result.push_both("<!/>");
    context.register_helper("getNextMarker");
    let marker = context.generate_uid("el$");
    let content = context.generate_uid("co$");
    let start = mem(el(open.as_str()), "nextSibling");
    let init = call1(nowhere(), el("getNextMarker"), start);
    let mut names: Vec<String> = Vec::new();
    names.push(marker.clone());
    names.push(content.clone());
    let pattern = Pattern::Array(names);
    proof {
        assert(texts(names@) =~= seq![marker@, content@]);
    }
    result.push_declaration(pattern, init);
    place.settle(marker.clone());
    place.advance();
    (marker, content)
}

/// What holds of all children of a list.
#[derive(Copy, Clone, Debug)]
pub struct Setting {
    /// They are one expression and nothing else.
    pub single: bool,
    /// More than one stands for something.
    pub multi: bool,
    /// Some is a component.
    pub has_component: bool,
    /// Nodes are walked over, for something is inserted between them.
    pub track: bool,
    pub hydratable: bool,
}

impl Setting {
    /// The components are lowered before the first child.
    pub open spec fn lowers_first(self) -> bool {
        self.hydratable && self.has_component
    }
}

/// Calls `insert` with a parent and more.
pub open spec fn insert_call_v(
    result: ResultV,
    ctx: ContextV,
    span: Span,
    parent: Seq<char>,
    args: Seq<ExprV>,
) -> (ResultV, ContextV) {
    let helper = dom_helper_v(ctx, span, "insert"@);
    (result.with_expr(call_v(no_span(), helper.1, seq![el_v(parent)] + args)), helper.0)
}

impl StateV {
    /// With a call of `insert`.
    pub open spec fn inserted(self, span: Span, parent: Seq<char>, args: Seq<ExprV>) -> StateV {
        let pair = insert_call_v(self.result, self.ctx, span, parent, args);
        StateV { result: pair.0, ctx: pair.1, ..self }
    }
}

/// Keeps variables for the children behind `at`, where nodes are walked over.
pub open spec fn kept_for_v(
    state: StateV,
    children: Seq<JsxChild>,
    at: nat,
    setting: Setting,
    runtime: bool,
    options: TransformOptions,
    vocabulary: Vocabulary,
) -> StateV {
    if setting.track {
        let kept = reserved_v(
            children,
            at + 1,
            setting.has_component,
            runtime,
            state.place,
            state.ctx,
            options,
            vocabulary,
        );
        StateV { place: kept.0, ctx: kept.1, ..state }
    } else {
        state
    }
}

/// A comment before which is inserted: the one that is there, or a new one.
#[verifier::opaque]
pub open spec fn placeholder_v(
    state: StateV,
    parent: Seq<char>,
    children: Seq<JsxChild>,
    at: nat,
    setting: Setting,
    options: TransformOptions,
    vocabulary: Vocabulary,
) -> (StateV, Seq<char>) {
    match state.place.placeholder {
        Some(id) => (state, id),
        None => {
            let kept = kept_for_v(state, children, at, setting, false, options, vocabulary);
            let made = kept.with_both("<!>"@).declared_fresh(parent);
            (made.0.advanced().with_placeholder(Some(made.1)), made.1)
        },
    }
}

/// Inserts a value at the place of the child `at`.
#[verifier::opaque]
pub open spec fn insertion_v(
    start: StateV,
    span: Span,
    value: ExprV,
    parent: Seq<char>,
    children: Seq<JsxChild>,
    at: nat,
    setting: Setting,
    options: TransformOptions,
    vocabulary: Vocabulary,
) -> StateV {
    let state = StateV { ctx: start.ctx.register("insert"@), ..start };
    let plain = state.with_placeholder(None);
    if setting.single {
        plain.inserted(span, parent, seq![value])
    } else if setting.hydratable && setting.multi {
        let kept = kept_for_v(plain, children, at, setting, true, options, vocabulary);
        let marked = markers_v(kept, parent);
        marked.0.inserted(span, parent, seq![value, el_v(marked.1), el_v(marked.2)])
    } else if text_before(children, at) && text_behind(children, at as int) {
        let held = placeholder_v(state, parent, children, at, setting, options, vocabulary);
        held.0.inserted(span, parent, seq![value, el_v(held.1)])
    } else if setting.multi {
        if anchor_from(children, (at + 1) as int) {
            let helper = dom_helper_v(plain.ctx, span, "insert"@);
            let held = StateV { ctx: helper.0, ..plain }.declared_next(parent);
            StateV {
                result: held.0.result.with_expr(
                    call_v(no_span(), helper.1, seq![el_v(parent), value, el_v(held.1)]),
                ),
                ..held.0
            }
        } else {
            plain.inserted(span, parent, seq![value, null_v(span)])
        }
    } else {
        plain.inserted(span, parent, seq![value])
    }
}

fn keep_for(
    children: &Vec<JsxChild>,
    at: usize,
    setting: Setting,
    runtime: bool,
    context: &mut BlockContext,
    place: &mut Place,
    options: &TransformOptions,
    vocabulary: &Vocabulary,
)
    requires
        at < children.len(),
    ensures
        forall|result: ResultV|
            (StateV { result, ctx: final(context)@, place: final(place)@ })
                == #[trigger] kept_for_v(
                StateV { result, ctx: old(context)@, place: old(place)@ },
                children@,
                at as nat,
                setting,
                runtime,
                *options,
                *vocabulary,
            ),
{
    if setting.track {
        place.reserve(
            children,
            at + 1,
            setting.has_component,
            runtime,
            context,
            options,
            vocabulary,
        );
    }
}

/// A comment before which is inserted.
fn hold_placeholder(
    parent: &str,
    children: &Vec<JsxChild>,
    at: usize,
    setting: Setting,
    result: &mut TransformResult,
    context: &mut BlockContext,
    place: &mut Place,
    options: &TransformOptions,
    vocabulary: &Vocabulary,
) -> (id: String)
    requires
        at < children.len(),
    ensures
        (StateV { result: final(result)@, ctx: final(context)@, place: final(place)@ }, id@)
            == placeholder_v(
            StateV { result: old(result)@, ctx: old(context)@, place: old(place)@ },
            parent@,
            children@,
            at as nat,
            setting,
            *options,
            *vocabulary,
        ),
{
    proof {
        reveal(placeholder_v);
    }
    if let Some(id) = &place.placeholder {
        return id.clone();
    }
    let ghost r0 = result@;
    keep_for(children, at, setting, false, context, place, options, vocabulary);
    proof {
        assert((StateV { result: r0, ctx: context@, place: place@ }) == kept_for_v(
            StateV { result: r0, ctx: old(context)@, place: old(place)@ },
            children@,
            at as nat,
            setting,
            false,
            *options,
            *vocabulary,
        ));
    }
    result.push_both("<!>");
    let id = context.generate_uid("el$");
    declare_node(parent, id.clone(), result, place);
    place.advance();
    place.placeholder = Some(id.clone());
    id
}

/// Inserts a value at the place of the child `at`.
pub fn insert_child(
    span: Span,
    value: Rc<Expr>,
    parent: &str,
    children: &Vec<JsxChild>,
    at: usize,
    setting: Setting,
    result: &mut TransformResult,
    context: &mut BlockContext,
    place: &mut Place,
    options: &TransformOptions,
    vocabulary: &Vocabulary,
)
    requires
        at < children.len(),
    ensures
        (StateV { result: final(result)@, ctx: final(context)@, place: final(place)@ })
            == insertion_v(
            StateV { result: old(result)@, ctx: old(context)@, place: old(place)@ },
            span,
            value@,
            parent@,
            children@,
            at as nat,
            setting,
            *options,
            *vocabulary,
        ),
{
    proof {
        reveal(insertion_v);
    }
    context.register_helper("insert");
    if setting.single {
        place.placeholder = None;
        insert_value(span, value, parent, result, context);
    } else if setting.hydratable && setting.multi {
        place.placeholder = None;
        let ghost r0 = result@;
        let ghost c0 = context@;
        let ghost p0 = place@;
        keep_for(children, at, setting, true, context, place, options, vocabulary);
        proof {
            assert((StateV { result: r0, ctx: context@, place: place@ }) == kept_for_v(
                StateV { result: r0, ctx: c0, place: p0 },
                children@,
                at as nat,
                setting,
                true,
                *options,
                *vocabulary,
            ));
        }
        let (marker, content) = push_hydration_markers(parent, result, context, place);
        let callee = dom_helper_expr(context, span, "insert");
        proof {
            assert(seq![el_v(parent@)] + seq![value@, el_v(marker@), el_v(content@)] =~= seq![
                el_v(parent@),
                value@,
                el_v(marker@),
                el_v(content@),
            ]);
        }
        result.push_expr(
            call4(nowhere(), callee, el(parent), value, el(marker.as_str()), el(content.as_str())),
        );
    } else if is_wrapped_by_text(children, at) {
        let marker = hold_placeholder(
            parent,
            children,
            at,
            setting,
            result,
            context,
            place,
            options,
            vocabulary,
        );
        insert_before(span, value, parent, el(marker.as_str()), result, context);
    } else if setting.multi {
        place.placeholder = None;
        if has_future_static_anchor(children, at + 1) {
            let callee = dom_helper_expr(context, span, "insert");
            let marker = place.take_static_walker_id(context);
            declare_node(parent, marker.clone(), result, place);
            result.push_expr(
                call3(nowhere(), callee, el(parent), value, el(marker.as_str())),
            );
        } else {
            insert_before(span, value, parent, null(span), result, context);
        }
    } else {
        place.placeholder = None;
        insert_value(span, value, parent, result, context);
    }
}

/// `insert(parent, value)`.
fn insert_value(
    span: Span,
    value: Rc<Expr>,
    parent: &str,
    result: &mut TransformResult,
    context: &mut BlockContext,
)
    ensures
        (final(result)@, final(context)@) == insert_call_v(
            old(result)@,
            old(context)@,
            span,
            parent@,
            seq![value@],
        ),
{
    let callee = dom_helper_expr(context, span, "insert");
    proof {
        assert(seq![el_v(parent@)] + seq![value@] =~= seq![el_v(parent@), value@]);
    }
    result.push_expr(call2(nowhere(), callee, el(parent), value));
}

/// `insert(parent, value, marker)`.
fn insert_before(
    span: Span,
    value: Rc<Expr>,
    parent: &str,
    marker: Rc<Expr>,
    result: &mut TransformResult,
    context: &mut BlockContext,
)
    ensures
        (final(result)@, final(context)@) == insert_call_v(
            old(result)@,
            old(context)@,
            span,
            parent@,
            seq![value@, marker@],
        ),
{
    let callee = dom_helper_expr(context, span, "insert");
    proof {
        assert(seq![el_v(parent@)] + seq![value@, marker@] =~= seq![
            el_v(parent@),
            value@,
            marker@,
        ]);
    }
    result.push_expr(call3(nowhere(), callee, el(parent), value, marker));
}

} // verus!
