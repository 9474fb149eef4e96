//! What is to be done with a source: whether it is transformed at all, by which
//! passes, and what they are told.

use crate::interface::{
    is_asked_for, refresh_runtime, runtime_of, should_transform, JsTransformOptions, RefreshRuntime,
};
use crate::make::copied;
use crate::options::{GenerateMode, TransformOptions};
use crate::outside::{parse, parse_report};
use crate::recover::{recover_source, recovered, MAX_ROUNDS};
use oxc_span::SourceType;
use vstd::prelude::*;

verus! {

/// A source as it is taken, and whether it is to be transformed.
#[derive(Debug)]
pub struct Reading {
    pub source: String,
    pub transforms: bool,
}

/// Reads a source: its hyphens in the names of components are replaced, and its
/// comments tell whether it has the import source that is required.
pub fn read_source(
    source: &str,
    source_type: SourceType,
    required: Option<&str>,
    sentinel: &str,
) -> (read: Reading)
    ensures
        read.source@ == recovered(source@, source_type, sentinel@, MAX_ROUNDS as nat),
        read.transforms == is_asked_for(
            parse_report(read.source@, source_type).comments,
            required,
        ),
{
    let text = recover_source(source, source_type, sentinel);
    let report = parse(text.as_str(), source_type);
    let transforms = should_transform(&report.comments, required);
    Reading { source: text, transforms }
}

/// What the pass that lets modules be replaced is told.
#[derive(Debug)]
pub struct RefreshOptions {
    pub granular: bool,
    pub jsx: bool,
    pub bundler: RefreshRuntime,
    pub fix_render: bool,
    pub filename: String,
}

/// The value of a `RefreshOptions`.
pub ghost struct RefreshOptionsV {
    pub granular: bool,
    pub jsx: bool,
    pub bundler: RefreshRuntime,
    pub fix_render: bool,
    pub filename: Seq<char>,
}

/// A pass over a program.
#[derive(Debug)]
pub enum Pass {
    /// For the DOM, the universal or the mixed renderer.
    Solid,
    /// For the server.
    Ssr,
    /// Lets modules be replaced while they run.
    Refresh(RefreshOptions),
}

/// The value of a `Pass`.
pub ghost enum PassV {
    Solid,
    Ssr,
    Refresh(RefreshOptionsV),
}

impl View for Pass {
    type V = PassV;

    open spec fn view(&self) -> PassV {
        match *self {
            Pass::Solid => PassV::Solid,
            Pass::Ssr => PassV::Ssr,
            Pass::Refresh(told) => PassV::Refresh(
                RefreshOptionsV {
                    granular: told.granular,
                    jsx: told.jsx,
                    bundler: told.bundler,
                    fix_render: told.fix_render,
                    filename: told.filename@,
                },
            ),
        }
    }
}

pub open spec fn pass_values(items: Seq<Pass>) -> Seq<PassV> {
    items.map_values(|pass: Pass| pass@)
}

/// The pass for the renderer of these options.
pub open spec fn main_pass(options: TransformOptions) -> PassV {
    if options.generate is Ssr {
        PassV::Ssr
    } else {
        PassV::Solid
    }
}

/// The pass that lets modules be replaced, as these options tell it.
pub open spec fn refresh_pass(options: TransformOptions) -> PassV {
    PassV::Refresh(
        RefreshOptionsV {
            granular: options.hmr_granular,
            jsx: options.hmr_jsx,
            bundler: runtime_of(options.hmr_bundler@),
            fix_render: options.hmr_fix_render,
            filename: options.filename@,
        },
    )
}

/// The passes over a program, in their order: none where it is not to be
/// transformed.
pub open spec fn passes_v(asked_for: bool, options: TransformOptions) -> Seq<PassV> {
    if !asked_for {
        seq![]
    } else if options.hmr {
        seq![main_pass(options), refresh_pass(options)]
    } else {
        seq![main_pass(options)]
    }
}

/// What is to be done with a source.
#[derive(Debug)]
pub struct Plan {
    /// The source to parse.
    pub source: String,
    /// The passes over the program, in their order.
    pub passes: Vec<Pass>,
    /// The path that the source map names, where one is made.
    pub map: Option<String>,
}

/// The plan is what these options say of a source.
pub open spec fn is_plan(
    plan: Plan,
    source: Seq<char>,
    options: TransformOptions,
    sentinel: Seq<char>,
) -> bool {
    &&& plan.source@ == recovered(source, options.source_type, sentinel, MAX_ROUNDS as nat)
    &&& pass_values(plan.passes@) == passes_v(
        is_asked_for(
            parse_report(plan.source@, options.source_type).comments,
            options.require_import_source,
        ),
        options,
    )
    &&& match plan.map {
        Some(path) => options.source_map && path@ == options.filename@,
        None => !options.source_map,
    }
}

/// What is to be done with a source.  `sentinel` takes the place of a hyphen in
/// the name of a component.
pub fn plan_transform(source: &str, options: &TransformOptions, sentinel: &str) -> (plan: Plan)
    ensures
        is_plan(plan, source@, *options, sentinel@),
{
    let read = read_source(source, options.source_type, options.require_import_source, sentinel);
    let mut passes: Vec<Pass> = Vec::new();
    if read.transforms {
        match options.generate {
            GenerateMode::Ssr => passes.push(Pass::Ssr),
            GenerateMode::Dom | GenerateMode::Universal | GenerateMode::Dynamic => passes.push(
                Pass::Solid,
            ),
        }
        if options.hmr {
            passes.push(
                Pass::Refresh(
                    RefreshOptions {
                        granular: options.hmr_granular,
                        jsx: options.hmr_jsx,
                        bundler: refresh_runtime(options.hmr_bundler),
                        fix_render: options.hmr_fix_render,
                        filename: copied(options.filename),
                    },
                ),
            );
        }
    }
    proof {
        assert(pass_values(passes@) =~= passes_v(read.transforms, *options));
    }
    let map = if options.source_map {
        Some(copied(options.filename))
    } else {
        None
    };
    Plan { source: read.source, passes, map }
}

/// What is to be done with a source, and the options for it; without options,
/// the defaults of Solid.
pub fn transform<'a>(source: &str, options: Option<TransformOptions<'a>>, sentinel: &str) -> (
    planned: (TransformOptions<'a>, Plan))
    ensures
        match options {
            Some(options) => planned.0 == options,
            None => planned.0.is_solid_defaults(),
        },
        is_plan(planned.1, source@, planned.0, sentinel@),
{
    let options = match options {
        Some(options) => options,
        None => TransformOptions::solid_defaults(),
    };
    let plan = plan_transform(source, &options, sentinel);
    (options, plan)
}

/// What is to be done with a source, and the options for it, as a script gave
/// them.
pub fn transform_jsx<'a>(
    source: &str,
    options: &'a Option<JsTransformOptions>,
    sentinel: &str,
) -> (planned: (TransformOptions<'a>, Plan))
    ensures
        match *options {
            Some(given) => given.reads_as(planned.0),
            None => JsTransformOptions::nothing().reads_as(planned.0),
        },
        is_plan(planned.1, source@, planned.0, sentinel@),
{
    let options = match options {
        Some(given) => given.to_options(),
        None => TransformOptions::solid_defaults(),
    };
    let plan = plan_transform(source, &options, sentinel);
    (options, plan)
}

// ---------------------------------------------------------------------------
// Laws
// ---------------------------------------------------------------------------

/// Where no import source is required, every source is transformed.
pub proof fn without_requirement_all_is_transformed(
    plan: Plan,
    source: Seq<char>,
    options: TransformOptions,
    sentinel: Seq<char>,
)
    requires
        is_plan(plan, source, options, sentinel),
        options.require_import_source is None,
    ensures
        plan.passes@.len() > 0,
        plan.passes@[0]@ == main_pass(options),
{
    assert(pass_values(plan.passes@).len() == plan.passes@.len());
    assert(pass_values(plan.passes@)[0] == main_pass(options));
}

/// A source without a comment that names the required import source is left
/// alone.
pub proof fn without_import_source_nothing_is_done(
    plan: Plan,
    source: Seq<char>,
    options: TransformOptions,
    sentinel: Seq<char>,
)
    requires
        is_plan(plan, source, options, sentinel),
        !is_asked_for(
            parse_report(plan.source@, options.source_type).comments,
            options.require_import_source,
        ),
    ensures
        plan.passes@.len() == 0,
{
    assert(pass_values(plan.passes@).len() == plan.passes@.len());
}

} // verus!
