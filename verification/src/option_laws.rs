//! What the options that were given mean.

use crate::interface::{
    is_asked_for, names_differ, names_import_source, runtime_of, JsTransformOptions, RefreshRuntime,
};
use crate::options::{dom_module, slice_texts, GenerateMode, RendererConfig, TransformOptions};
use crate::plan::{passes_v, PassV};
use crate::text::{find_v, starts_with, trim};
use vstd::prelude::*;

verus! {

/// Every mode is reached by its name, and any other text, or none, stands for
/// the DOM.
pub proof fn a_mode_is_reached_by_its_name(given: JsTransformOptions, options: TransformOptions)
    requires
        given.reads_as(options),
    ensures
        options.generate == GenerateMode::Ssr <==> (given.generate is Some && (given.generate->0)@
            == "ssr"@),
        options.generate == GenerateMode::Universal <==> (given.generate is Some && (
        given.generate->0)@ == "universal"@),
        options.generate == GenerateMode::Dynamic <==> (given.generate is Some && (
        given.generate->0)@ == "dynamic"@),
{
    names_differ();
}

/// A flag that was given is taken, and one that was not has its default.
pub open spec fn is_flag_of(flag: bool, given: Option<bool>, default: bool) -> bool {
    &&& given == Some(true) ==> flag
    &&& given == Some(false) ==> !flag
    &&& given is None ==> flag == default
}

/// A text that was given is taken, and one that was not has its default.
pub open spec fn is_text_of(text: Seq<char>, given: Option<String>, default: Seq<char>) -> bool {
    &&& given is Some ==> text == (given->0)@
    &&& given is None ==> text == default
}

/// Every option is the one that was given under its name, or its own default.
pub proof fn an_option_is_the_one_given(given: JsTransformOptions, options: TransformOptions)
    requires
        given.reads_as(options),
    ensures
        is_flag_of(options.hydratable, given.hydratable, false),
        is_flag_of(options.delegate_events, given.delegate_events, true),
        is_flag_of(options.wrap_conditionals, given.wrap_conditionals, true),
        is_flag_of(options.omit_nested_closing_tags, given.omit_nested_closing_tags, false),
        is_flag_of(options.omit_last_closing_tag, given.omit_last_closing_tag, true),
        is_flag_of(options.omit_quotes, given.omit_quotes, true),
        is_flag_of(options.inline_styles, given.inline_styles, true),
        is_flag_of(options.context_to_custom_elements, given.context_to_custom_elements, true),
        is_flag_of(options.source_map, given.source_map, false),
        is_flag_of(options.validate, given.validate, true),
        is_flag_of(options.hmr, given.hmr, false),
        is_flag_of(options.hmr_granular, given.hmr_granular, true),
        is_flag_of(options.hmr_jsx, given.hmr_jsx, true),
        is_flag_of(options.hmr_fix_render, given.hmr_fix_render, true),
        is_text_of(options.module_name@, given.module_name, "solid-js/web"@),
        is_text_of(options.filename@, given.filename, "input.jsx"@),
        is_text_of(options.hmr_bundler@, given.hmr_bundler, "standard"@),
        options.require_import_source is Some == given.require_import_source is Some,
        options.require_import_source matches Some(required) ==> required@ == (
        given.require_import_source->0)@,
        given.renderers is None ==> options.renderers@.len() == 0,
        given.renderers matches Some(renderers) ==> options.renderers@.len() == renderers@.len()
            && forall|i: int|
            0 <= i < renderers@.len() ==> (#[trigger] options.renderers@[i]).name@
                == renderers@[i].name@ && options.renderers@[i].module_name@
                == renderers@[i].module_name@,
{
}

/// Every runtime is reached by its name, and any other text stands for the
/// standard one.
pub proof fn a_runtime_is_reached_by_its_name(name: Seq<char>)
    ensures
        runtime_of(name) == RefreshRuntime::Esm <==> name == "esm"@,
        runtime_of(name) == RefreshRuntime::Vite <==> name == "vite"@,
        runtime_of(name) == RefreshRuntime::Webpack5 <==> name == "webpack5"@,
        runtime_of(name) == RefreshRuntime::RspackEsm <==> name == "rspack-esm"@,
{
    names_differ();
}

/// A file that is asked for goes through the pass of its mode, and then, where
/// hot replacement is on, through the one of the refresh with its own settings; a
/// file that is not goes through none.
pub proof fn a_file_goes_through_its_passes(asked_for: bool, options: TransformOptions)
    ensures
        ({
            let passes = passes_v(asked_for, options);
            &&& passes.len() == if !asked_for {
                0nat
            } else if options.hmr {
                2
            } else {
                1
            }
            &&& asked_for ==> (passes[0] == PassV::Ssr <==> options.generate == GenerateMode::Ssr)
            &&& asked_for ==> (passes[0] == PassV::Solid <==> options.generate
                != GenerateMode::Ssr)
            &&& asked_for && options.hmr ==> (passes[1] matches PassV::Refresh(told)
                && told.granular == options.hmr_granular && told.jsx == options.hmr_jsx
                && told.fix_render == options.hmr_fix_render && told.filename == options.filename@
                && (told.bundler == RefreshRuntime::Vite <==> options.hmr_bundler@ == "vite"@)
                && (told.bundler == RefreshRuntime::Esm <==> options.hmr_bundler@ == "esm"@)
                && (told.bundler == RefreshRuntime::Webpack5 <==> options.hmr_bundler@
                == "webpack5"@) && (told.bundler == RefreshRuntime::RspackEsm
                <==> options.hmr_bundler@ == "rspack-esm"@))
        }),
{
    a_runtime_is_reached_by_its_name(options.hmr_bundler@);
}

/// A comment asks for a module by naming it behind the pragma, which stands in it
/// once.
pub proof fn a_comment_asks_by_name(before: Seq<char>, rest: Seq<char>, required: Seq<char>)
    requires
        find_v(before + "@jsxImportSource"@ + rest, "@jsxImportSource"@) == Some(before.len()),
        find_v(rest, "@jsxImportSource"@) is None,
    ensures
        names_import_source(before + "@jsxImportSource"@ + rest, required) <==> trim(rest)
            == required,
{
    let pragma = "@jsxImportSource"@;
    let comment = before + pragma + rest;
    assert(comment.skip((before.len() + pragma.len()) as int) =~= rest);
}

/// A comment without the pragma asks for nothing.
pub proof fn a_comment_without_the_pragma_asks_for_nothing(
    comment: Seq<char>,
    required: Seq<char>,
)
    requires
        forall|i: int|
            0 <= i <= comment.len() ==> !starts_with(
                #[trigger] comment.skip(i),
                "@jsxImportSource"@,
            ),
    ensures
        !names_import_source(comment, required),
{
    crate::text_laws::a_part_is_found_first(comment, "@jsxImportSource"@);
    if let Some(at) = find_v(comment, "@jsxImportSource"@) {
        let pragma = "@jsxImportSource"@;
        assert(comment.skip(at as int).take(pragma.len() as int) =~= comment.subrange(
            at as int,
            (at + pragma.len()) as int,
        ));
        assert(starts_with(comment.skip(at as int), pragma));
    }
}

/// Without a requirement every file is asked for; with one, no file without
/// comments is, and more comments never take a request back.
pub proof fn more_comments_ask_for_more(
    comments: Seq<Seq<char>>,
    more: Seq<Seq<char>>,
    required: Option<&str>,
)
    ensures
        required is None ==> is_asked_for(comments, required),
        required is Some ==> !is_asked_for(seq![], required),
        is_asked_for(comments, required) || is_asked_for(more, required) ==> is_asked_for(
            comments + more,
            required,
        ),
{
    if let Some(required) = required {
        if is_asked_for(comments, Some(required)) {
            let i = choose|i: int|
                0 <= i < comments.len() && names_import_source(
                    #[trigger] comments[i],
                    required@,
                );
            assert((comments + more)[i] == comments[i]);
        }
        if is_asked_for(more, Some(required)) {
            let i = choose|i: int|
                0 <= i < more.len() && names_import_source(#[trigger] more[i], required@);
            assert((comments + more)[comments.len() + i] == more[i]);
        }
    }
}

/// The module of the DOM renderer is that of the first renderer named `dom`.
pub proof fn the_dom_module_is_that_of_dom(renderers: Seq<RendererConfig>)
    ensures
        dom_module(renderers) is None <==> forall|i: int|
            0 <= i < renderers.len() ==> (#[trigger] renderers[i]).name@ != "dom"@,
        dom_module(renderers) matches Some(module) ==> exists|i: int|
            0 <= i < renderers.len() && (#[trigger] renderers[i]).name@ == "dom"@
                && renderers[i].module_name@ == module && forall|j: int|
                0 <= j < i ==> (#[trigger] renderers[j]).name@ != "dom"@,
    decreases renderers.len(),
{
    if renderers.len() > 0 && renderers[0].name@ != "dom"@ {
        let rest = renderers.skip(1);
        the_dom_module_is_that_of_dom(rest);
        if let Some(module) = dom_module(rest) {
            let i = choose|i: int|
                0 <= i < rest.len() && (#[trigger] rest[i]).name@ == "dom"@
                    && rest[i].module_name@ == module && forall|j: int|
                    0 <= j < i ==> (#[trigger] rest[j]).name@ != "dom"@;
            assert(renderers[i + 1] == rest[i]);
            assert forall|j: int| 0 <= j < i + 1 implies (#[trigger] renderers[j]).name@
                != "dom"@ by {
                if j > 0 {
                    assert(rest[j - 1] == renderers[j]);
                }
            }
        } else {
            assert forall|i: int| 0 <= i < renderers.len() implies (#[trigger] renderers[i]).name@
                != "dom"@ by {
                if i > 0 {
                    assert(rest[i - 1] == renderers[i]);
                }
            }
        }
    }
}

/// The universal renderer renders every tag in its own mode, in the dynamic one
/// those that no DOM renderer lists, and in the others none.
pub proof fn a_renderer_renders_its_tags(options: TransformOptions, tag: Seq<char>)
    ensures
        options.generate == GenerateMode::Universal ==> options.universal_renders(tag),
        options.generate == GenerateMode::Dom || options.generate == GenerateMode::Ssr
            ==> !options.universal_renders(tag),
        options.generate == GenerateMode::Dynamic ==> (options.universal_renders(tag)
            <==> forall|i: int, k: int|
            0 <= i < options.renderers@.len() && 0 <= k < options.renderers@[i].elements@.len()
                && (#[trigger] options.renderers@[i].elements@[k])@ == tag
                ==> options.renderers@[i].name@ != "dom"@),
{
    if options.generate == GenerateMode::Dynamic {
        if options.dom_renders(tag) {
            let i = choose|i: int|
                0 <= i < options.renderers@.len() && #[trigger] options.renderers@[i].is_dom_for(
                    tag,
                );
            let texts = slice_texts(options.renderers@[i].elements@);
            let k = choose|k: int| 0 <= k < texts.len() && texts[k] == tag;
            assert(options.renderers@[i].elements@[k]@ == tag);
        } else {
            assert forall|i: int, k: int|
                0 <= i < options.renderers@.len() && 0 <= k
                    < options.renderers@[i].elements@.len() && (
                #[trigger] options.renderers@[i].elements@[k])@ == tag implies options.renderers@[i].name@
                != "dom"@ by {
                let texts = slice_texts(options.renderers@[i].elements@);
                assert(texts[k] == tag);
                assert(!options.renderers@[i].is_dom_for(tag));
            }
        }
    }
}

} // verus!
