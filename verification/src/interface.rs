//! The options as a script hands them over, and the pragma that may be asked
//! for.

use crate::options::{slice_texts, GenerateMode, RendererConfig, TransformOptions};
use crate::outside::{same, set_of};
use crate::text::{chars_of, find_in, find_v, skip_white, skip_white_back, stretch_is, texts, trim};
use vstd::prelude::*;

verus! {

/// The outcome of a transform.
#[derive(Debug)]
pub struct OwnedTransformResult {
    /// The transformed code.
    pub code: String,
    /// The source map as JSON, where one was asked for.
    pub map: Option<String>,
}

/// A renderer, as a script names it.
#[derive(Default)]
pub struct JsRendererConfig {
    pub name: String,
    pub module_name: String,
    pub elements: Vec<String>,
}

/// The options, as a script gives them; what is missing has a default.
pub struct JsTransformOptions {
    pub module_name: Option<String>,
    pub renderers: Option<Vec<JsRendererConfig>>,
    pub generate: Option<String>,
    pub hydratable: Option<bool>,
    pub delegate_events: Option<bool>,
    pub wrap_conditionals: Option<bool>,
    pub omit_nested_closing_tags: Option<bool>,
    pub omit_last_closing_tag: Option<bool>,
    pub omit_quotes: Option<bool>,
    pub inline_styles: Option<bool>,
    pub context_to_custom_elements: Option<bool>,
    pub filename: Option<String>,
    pub source_map: Option<bool>,
    pub require_import_source: Option<String>,
    pub validate: Option<bool>,
    pub hmr: Option<bool>,
    pub hmr_bundler: Option<String>,
    pub hmr_granular: Option<bool>,
    pub hmr_jsx: Option<bool>,
    pub hmr_fix_render: Option<bool>,
}

impl JsTransformOptions {
    /// What a script gives that gives nothing.
    pub open spec fn nothing() -> JsTransformOptions {
        JsTransformOptions {
            module_name: None,
            renderers: None,
            generate: None,
            hydratable: None,
            delegate_events: None,
            wrap_conditionals: None,
            omit_nested_closing_tags: None,
            omit_last_closing_tag: None,
            omit_quotes: None,
            inline_styles: None,
            context_to_custom_elements: None,
            filename: None,
            source_map: None,
            require_import_source: None,
            validate: None,
            hmr: None,
            hmr_bundler: None,
            hmr_granular: None,
            hmr_jsx: None,
            hmr_fix_render: None,
        }
    }
}

impl Default for JsTransformOptions {
    fn default() -> (options: Self)
        ensures
            options == JsTransformOptions::nothing(),
    {
        JsTransformOptions {
            module_name: None,
            renderers: None,
            generate: None,
            hydratable: None,
            delegate_events: None,
            wrap_conditionals: None,
            omit_nested_closing_tags: None,
            omit_last_closing_tag: None,
            omit_quotes: None,
            inline_styles: None,
            context_to_custom_elements: None,
            filename: None,
            source_map: None,
            require_import_source: None,
            validate: None,
            hmr: None,
            hmr_bundler: None,
            hmr_granular: None,
            hmr_jsx: None,
            hmr_fix_render: None,
        }
    }
}

/// The runtime of a bundler that modules are replaced through.
#[derive(Clone, Copy, Debug, PartialEq, Eq, Structural)]
pub enum RefreshRuntime {
    Esm,
    Vite,
    Standard,
    Webpack5,
    RspackEsm,
}

/// An option, or its default.
pub open spec fn or_bool(value: Option<bool>, default: bool) -> bool {
    match value {
        Some(value) => value,
        None => default,
    }
}

/// An option, or its default.
pub open spec fn or_text(value: Option<String>, default: Seq<char>) -> Seq<char> {
    match value {
        Some(value) => value@,
        None => default,
    }
}

/// The mode of a name; the DOM where it is none of the others.
pub open spec fn mode_of(name: Option<String>) -> GenerateMode {
    match name {
        Some(name) => if name@ == "ssr"@ {
            GenerateMode::Ssr
        } else if name@ == "universal"@ {
            GenerateMode::Universal
        } else if name@ == "dynamic"@ {
            GenerateMode::Dynamic
        } else {
            GenerateMode::Dom
        },
        None => GenerateMode::Dom,
    }
}

/// A renderer stands for the one that a script names.
pub open spec fn same_renderer(renderer: RendererConfig, given: JsRendererConfig) -> bool {
    &&& renderer.name@ == given.name@
    &&& renderer.module_name@ == given.module_name@
    &&& slice_texts(renderer.elements@) == texts(given.elements@)
}

fn flag(value: &Option<bool>, default: bool) -> (chosen: bool)
    ensures
        chosen == or_bool(*value, default),
{
    match value {
        Some(value) => *value,
        None => default,
    }
}

fn text_or<'a>(value: &'a Option<String>, default: &'a str) -> (chosen: &'a str)
    ensures
        chosen@ == or_text(*value, default@),
{
    match value {
        Some(value) => value.as_str(),
        None => default,
    }
}

fn slices<'a>(items: &'a Vec<String>) -> (slices: Vec<&'a str>)
    ensures
        slice_texts(slices@) == texts(items@),
{
    let mut slices: Vec<&'a str> = Vec::new();
    let mut i: usize = 0;
    while i < items.len()
        invariant
            i <= items.len(),
            slices@.len() == i,
            forall|k: int| 0 <= k < i ==> #[trigger] slices@[k]@ == items@[k]@,
        decreases items.len() - i,
    {
        slices.push(items[i].as_str());
        i = i + 1;
    }
    proof {
        assert(slice_texts(slices@) =~= texts(items@));
    }
    slices
}

impl JsTransformOptions {
    /// The mode that is asked for.
    fn mode(&self) -> (mode: GenerateMode)
        ensures
            mode == mode_of(self.generate),
    {
        match &self.generate {
            Some(name) => if same(name.as_str(), "ssr") {
                GenerateMode::Ssr
            } else if same(name.as_str(), "universal") {
                GenerateMode::Universal
            } else if same(name.as_str(), "dynamic") {
                GenerateMode::Dynamic
            } else {
                GenerateMode::Dom
            },
            None => GenerateMode::Dom,
        }
    }

    fn renderer_configs<'a>(&'a self) -> (configs: Vec<RendererConfig<'a>>)
        ensures
            match self.renderers {
                Some(given) => configs@.len() == given@.len() && forall|i: int|
                    0 <= i < given@.len() ==> same_renderer(#[trigger] configs@[i], given@[i]),
                None => configs@.len() == 0,
            },
    {
        let mut configs: Vec<RendererConfig<'a>> = Vec::new();
        match &self.renderers {
            None => {},
            Some(given) => {
                let mut i: usize = 0;
                while i < given.len()
                    invariant
                        i <= given.len(),
                        configs@.len() == i,
                        forall|k: int| 0 <= k < i ==> same_renderer(#[trigger] configs@[k], given@[k]),
                    decreases given.len() - i,
                {
                    configs.push(
                        RendererConfig {
                            name: given[i].name.as_str(),
                            module_name: given[i].module_name.as_str(),
                            elements: slices(&given[i].elements),
                        },
                    );
                    i = i + 1;
                }
            },
        }
        configs
    }

    /// These are the options that a script gave.
    pub open spec fn reads_as(self, options: TransformOptions) -> bool {
        &&& options.generate == mode_of(self.generate)
        &&& match self.renderers {
            Some(given) => options.renderers@.len() == given@.len() && forall|i: int|
                0 <= i < given@.len() ==> same_renderer(
                    #[trigger] options.renderers@[i],
                    given@[i],
                ),
            None => options.renderers@.len() == 0,
        }
        &&& options.hydratable == or_bool(self.hydratable, false)
        &&& options.delegate_events == or_bool(self.delegate_events, true)
        &&& options.wrap_conditionals == or_bool(self.wrap_conditionals, true)
        &&& options.omit_nested_closing_tags == or_bool(self.omit_nested_closing_tags, false)
        &&& options.omit_last_closing_tag == or_bool(self.omit_last_closing_tag, true)
        &&& options.omit_quotes == or_bool(self.omit_quotes, true)
        &&& options.inline_styles == or_bool(self.inline_styles, true)
        &&& options.context_to_custom_elements == or_bool(self.context_to_custom_elements, true)
        &&& options.filename@ == or_text(self.filename, "input.jsx"@)
        &&& options.source_map == or_bool(self.source_map, false)
        &&& match (options.require_import_source, self.require_import_source) {
            (Some(required), Some(given)) => required@ == given@,
            (None, None) => true,
            _ => false,
        }
        &&& options.validate == or_bool(self.validate, true)
        &&& options.hmr == or_bool(self.hmr, false)
        &&& options.hmr_bundler@ == or_text(self.hmr_bundler, "standard"@)
        &&& options.hmr_granular == or_bool(self.hmr_granular, true)
        &&& options.hmr_jsx == or_bool(self.hmr_jsx, true)
        &&& options.hmr_fix_render == or_bool(self.hmr_fix_render, true)
        &&& options.module_name@ == or_text(self.module_name, "solid-js/web"@)
        &&& options.effect_wrapper@ == "effect"@
        &&& options.memo_wrapper@ == "memo"@
        &&& options.static_marker@ == "@static"@
        &&& options.delegated_events@.len() == 0
        &&& slice_texts(options.built_ins@) == seq![
            "For"@,
            "Show"@,
            "Switch"@,
            "Match"@,
            "Suspense"@,
            "SuspenseList"@,
            "Portal"@,
            "Index"@,
            "Dynamic"@,
            "ErrorBoundary"@,
        ]
        &&& options.templates@.len() == 0
        &&& set_of(options.helpers) == Set::<Seq<char>>::empty()
        &&& set_of(options.delegates) == Set::<Seq<char>>::empty()
    }

    /// The options of a transform.
    pub fn to_options<'a>(&'a self) -> (options: TransformOptions<'a>)
        ensures
            self.reads_as(options),
            self.generate matches Some(name) && name@ == "ssr"@ ==> options.generate
                == GenerateMode::Ssr,
            self.generate matches Some(name) && name@ == "universal"@ ==> options.generate
                == GenerateMode::Universal,
            self.generate matches Some(name) && name@ == "dynamic"@ ==> options.generate
                == GenerateMode::Dynamic,
            self.generate matches Some(name) && name@ != "ssr"@ && name@ != "universal"@ && name@
                != "dynamic"@ ==> options.generate == GenerateMode::Dom,
            self.generate is None ==> options.generate == GenerateMode::Dom,
    {
        proof {
            names_differ();
        }
        let defaults = TransformOptions::solid_defaults();
        TransformOptions {
            module_name: text_or(&self.module_name, "solid-js/web"),
            generate: self.mode(),
            renderers: self.renderer_configs(),
            hydratable: flag(&self.hydratable, false),
            delegate_events: flag(&self.delegate_events, true),
            wrap_conditionals: flag(&self.wrap_conditionals, true),
            omit_nested_closing_tags: flag(&self.omit_nested_closing_tags, false),
            omit_last_closing_tag: flag(&self.omit_last_closing_tag, true),
            omit_quotes: flag(&self.omit_quotes, true),
            inline_styles: flag(&self.inline_styles, true),
            context_to_custom_elements: flag(&self.context_to_custom_elements, true),
            filename: text_or(&self.filename, "input.jsx"),
            source_map: flag(&self.source_map, false),
            require_import_source: match &self.require_import_source {
                Some(required) => Some(required.as_str()),
                None => None,
            },
            validate: flag(&self.validate, true),
            hmr: flag(&self.hmr, false),
            hmr_bundler: text_or(&self.hmr_bundler, "standard"),
            hmr_granular: flag(&self.hmr_granular, true),
            hmr_jsx: flag(&self.hmr_jsx, true),
            hmr_fix_render: flag(&self.hmr_fix_render, true),
            ..defaults
        }
    }
}

/// No two names of modes, and no two of runtimes, are one text.
pub proof fn names_differ()
    ensures
        "ssr"@ != "universal"@,
        "ssr"@ != "dynamic"@,
        "universal"@ != "dynamic"@,
        "esm"@ != "vite"@,
        "esm"@ != "webpack5"@,
        "esm"@ != "rspack-esm"@,
        "vite"@ != "webpack5"@,
        "vite"@ != "rspack-esm"@,
        "webpack5"@ != "rspack-esm"@,
{
    reveal_strlit("ssr");
    reveal_strlit("universal");
    reveal_strlit("dynamic");
    reveal_strlit("esm");
    reveal_strlit("vite");
    reveal_strlit("webpack5");
    reveal_strlit("rspack-esm");
    assert("ssr"@.len() == 3 && "universal"@.len() == 9 && "dynamic"@.len() == 7);
    assert("esm"@.len() == 3 && "vite"@.len() == 4 && "webpack5"@.len() == 8);
    assert("rspack-esm"@.len() == 10);
}

/// The runtime of a bundler's name; the standard one where it is none of the
/// others.
pub open spec fn runtime_of(name: Seq<char>) -> RefreshRuntime {
    if name == "esm"@ {
        RefreshRuntime::Esm
    } else if name == "vite"@ {
        RefreshRuntime::Vite
    } else if name == "webpack5"@ {
        RefreshRuntime::Webpack5
    } else if name == "rspack-esm"@ {
        RefreshRuntime::RspackEsm
    } else {
        RefreshRuntime::Standard
    }
}

/// The runtime of a bundler's name.
pub fn refresh_runtime(name: &str) -> (runtime: RefreshRuntime)
    ensures
        runtime == runtime_of(name@),
        name@ == "esm"@ <==> runtime == RefreshRuntime::Esm,
        name@ == "vite"@ <==> runtime == RefreshRuntime::Vite,
        name@ == "webpack5"@ <==> runtime == RefreshRuntime::Webpack5,
        name@ == "rspack-esm"@ <==> runtime == RefreshRuntime::RspackEsm,
{
    proof {
        names_differ();
    }
    if same(name, "esm") {
        RefreshRuntime::Esm
    } else if same(name, "vite") {
        RefreshRuntime::Vite
    } else if same(name, "webpack5") {
        RefreshRuntime::Webpack5
    } else if same(name, "rspack-esm") {
        RefreshRuntime::RspackEsm
    } else {
        RefreshRuntime::Standard
    }
}

/// A comment names `required` as its import source: the pragma stands in it
/// once, and what follows it, less white space at the ends, is `required`.
pub open spec fn names_import_source(comment: Seq<char>, required: Seq<char>) -> bool {
    let pragma = "@jsxImportSource"@;
    match find_v(comment, pragma) {
        None => false,
        Some(at) => {
            let rest = comment.skip((at + pragma.len()) as int);
            find_v(rest, pragma) is None && trim(rest) == required
        },
    }
}

fn comment_names_import_source(comment: &str, required: &str) -> (yes: bool)
    ensures
        yes == names_import_source(comment@, required@),
{
    let chars = chars_of(comment);
    let pragma = chars_of("@jsxImportSource");
    proof {
        assert(chars@.subrange(0, chars@.len() as int) =~= comment@);
    }
    match find_in(&chars, 0, chars.len(), &pragma) {
        None => false,
        Some(at) => {
            let from: usize = at + pragma.len();
            proof {
                assert(chars@.subrange(from as int, chars@.len() as int) =~= comment@.skip(
                    from as int,
                ));
            }
            match find_in(&chars, from, chars.len(), &pragma) {
                Some(_) => false,
                None => {
                    let start: usize = skip_white(&chars, from, chars.len());
                    let end: usize = skip_white_back(&chars, start, chars.len());
                    stretch_is(&chars, start, end, required)
                },
            }
        },
    }
}

/// A file is to be transformed: always, unless an import source is required;
/// then if one of the file's comments names it.
pub open spec fn is_asked_for(comments: Seq<Seq<char>>, required: Option<&str>) -> bool {
    match required {
        None => true,
        Some(required) => exists|i: int|
            0 <= i < comments.len() && names_import_source(#[trigger] comments[i], required@),
    }
}

/// Whether a file with these comments is to be transformed.
#[verifier::loop_isolation(false)]
pub fn should_transform(comments: &Vec<String>, required: Option<&str>) -> (yes: bool)
    ensures
        yes == is_asked_for(texts(comments@), required),
{
    match required {
        None => true,
        Some(required) => {
            let mut i: usize = 0;
            while i < comments.len()
                invariant
                    i <= comments.len(),
                    forall|k: int|
                        0 <= k < i ==> !names_import_source(
                            #[trigger] texts(comments@)[k],
                            required@,
                        ),
                decreases comments.len() - i,
            {
                if comment_names_import_source(comments[i].as_str(), required) {
                    proof {
                        assert(names_import_source(texts(comments@)[i as int], required@));
                    }
                    return true;
                }
                i = i + 1;
            }
            false
        },
    }
}

} // verus!
