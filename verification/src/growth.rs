//! What a file has gathered stays through every step of a transform.

use crate::ast::{Memo, Span};
use crate::frame::same_setting;
use crate::ir::{
    add_template_gives_its_index, add_template_keeps_well_formed, asking_retraces, behind_retraces,
    import_keeps_well_formed, ContextV, HelperSource, StepV, TemplateV, Wanted,
};
use vstd::prelude::*;

verus! {

/// A template that was added once more may since ask for an imported node.
pub open spec fn same_template(before: TemplateV, after: TemplateV) -> bool {
    &&& after == TemplateV { use_import_node: after.use_import_node, ..before }
    &&& before.use_import_node ==> after.use_import_node
}

/// What `before` has gathered, `after` has too and in the same place; `after`
/// has taken the steps of `before`, and perhaps more behind them; a request
/// stays, and one that was not in `before` was made behind its steps; helpers
/// keep their local names; and where nothing repeats in `before`, nothing
/// repeats in `after`.
#[verifier::opaque]
pub open spec fn grows(before: ContextV, after: ContextV) -> bool {
    &&& same_setting(before, after)
    &&& before.steps.is_prefix_of(after.steps)
    &&& after.asked != before.asked ==> before.asked is None && after.asked is Some && (
    after.steps.len() <= usize::MAX ==> before.steps.len() <= (after.asked->0).at)
    &&& before.helpers.is_prefix_of(after.helpers)
    &&& before.imports.is_prefix_of(after.imports)
    &&& before.delegates.is_prefix_of(after.delegates)
    &&& forall|key: (Seq<char>, Seq<char>)| #[trigger]
        before.aliases.dom().contains(key) ==> after.aliases.dom().contains(key)
            && after.aliases[key] == before.aliases[key]
    &&& before.templates.len() <= after.templates.len()
    &&& forall|i: int|
        0 <= i < before.templates.len() ==> same_template(
            before.templates[i],
            #[trigger] after.templates[i],
        )
    &&& before.well_formed() ==> after.well_formed()
}

// ---------------------------------------------------------------------------
// Single steps
// ---------------------------------------------------------------------------

/// A file that gathers nothing keeps what it has.
pub broadcast proof fn nothing_grows(ctx: ContextV)
    ensures
        #[trigger] grows(ctx, ctx),
{
    reveal(grows);
}

/// What stays through two steps stays through both.
pub broadcast proof fn growth_adds_up(a: ContextV, b: ContextV, c: ContextV)
    requires
        #[trigger] grows(a, b),
        #[trigger] grows(b, c),
    ensures
        grows(a, c),
{
    reveal(grows);
    assert(a.steps.is_prefix_of(c.steps)) by {
        assert(c.steps.take(a.steps.len() as int) =~= b.steps.take(a.steps.len() as int));
    }
    assert(a.helpers.is_prefix_of(c.helpers)) by {
        assert(c.helpers.take(a.helpers.len() as int) =~= b.helpers.take(a.helpers.len() as int));
    }
    assert(a.imports.is_prefix_of(c.imports)) by {
        assert(c.imports.take(a.imports.len() as int) =~= b.imports.take(a.imports.len() as int));
    }
    assert(a.delegates.is_prefix_of(c.delegates)) by {
        assert(c.delegates.take(a.delegates.len() as int) =~= b.delegates.take(
            a.delegates.len() as int,
        ));
    }
    assert forall|i: int| 0 <= i < a.templates.len() implies same_template(
        a.templates[i],
        #[trigger] c.templates[i],
    ) by {
        assert(same_template(a.templates[i], b.templates[i]));
    }
}

/// A fresh variable leaves what the file has gathered.
pub broadcast proof fn a_variable_grows(ctx: ContextV, prefix: Seq<char>)
    ensures
        grows(ctx, (#[trigger] ctx.uid(prefix)).0),
{
    reveal(grows);
    if ctx.well_formed() {
        behind_retraces(ctx, StepV::Uid(prefix));
    }
}

/// An import leaves what the file has gathered.
pub broadcast proof fn an_import_grows(ctx: ContextV, name: Seq<char>, source: HelperSource)
    ensures
        grows(ctx, (#[trigger] ctx.import(name, source)).0),
{
    reveal(grows);
    if ctx.well_formed() {
        import_keeps_well_formed(ctx, name, source);
    }
}

/// A helper leaves what the file has gathered.
pub broadcast proof fn a_helper_grows(ctx: ContextV, name: Seq<char>)
    ensures
        grows(ctx, #[trigger] ctx.register(name)),
{
    an_import_grows(ctx, name, ctx.default_source(name));
}

/// A delegated event leaves what the file has gathered.
pub broadcast proof fn an_event_grows(ctx: ContextV, event: Seq<char>)
    ensures
        grows(ctx, #[trigger] ctx.delegate(event)),
{
    reveal(grows);
    if ctx.well_formed() {
        behind_retraces(ctx, StepV::Delegate(event));
    }
}

/// A template leaves what the file has gathered.
pub broadcast proof fn a_template_grows(ctx: ContextV, template: TemplateV)
    ensures
        grows(ctx, (#[trigger] ctx.add_template(template)).0),
{
    reveal(grows);
    a_helper_grows(ctx, "template"@);
    add_template_gives_its_index(ctx, template);
    if ctx.well_formed() {
        add_template_keeps_well_formed(ctx, template);
    }
}

/// A request leaves what the file has gathered.
pub broadcast proof fn a_request_grows(ctx: ContextV, wanted: Wanted, span: Span)
    ensures
        grows(ctx, #[trigger] ctx.ask(wanted, span)),
{
    reveal(grows);
    if ctx.well_formed() {
        asking_retraces(ctx, wanted, span);
    }
}

/// Steps leave what the file has gathered.
pub broadcast proof fn steps_grow(ctx: ContextV, steps: Seq<StepV>)
    ensures
        grows(ctx, #[trigger] ctx.behind_all(steps)),
    decreases steps.len(),
{
    broadcast use {
        nothing_grows,
        growth_adds_up,
        a_variable_grows,
        an_import_grows,
        an_event_grows,
        a_template_grows,
    };

    if steps.len() > 0 {
        steps_grow(ctx, steps.drop_last());
        let mid = ctx.behind_all(steps.drop_last());
        assert(grows(mid, mid.behind(steps.last())));
    }
}

/// A form of a condition that is reached leaves what the file has gathered.
pub broadcast proof fn a_form_grows(
    ctx: ContextV,
    memo: Option<Memo>,
    wanted: Wanted,
    span: Span,
)
    ensures
        grows(ctx, #[trigger] ctx.lowering(memo, wanted, span)),
{
    broadcast use {a_request_grows, steps_grow};

}

pub broadcast group group_growth {
    nothing_grows,
    growth_adds_up,
    a_variable_grows,
    an_import_grows,
    a_helper_grows,
    an_event_grows,
    a_template_grows,
    a_request_grows,
    steps_grow,
    a_form_grows,
}

} // verus!
