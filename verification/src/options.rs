//! The options of a transform.

use crate::make::copied;
use crate::outside::{insert_member, new_set, same, set_of};
use oxc_span::SourceType;
use rustc_hash::FxHashSet;
use vstd::prelude::*;

verus! {

/// A renderer of the dynamic mode.
#[derive(Clone, Default)]
pub struct RendererConfig<'a> {
    /// Its name, such as "dom".
    pub name: &'a str,
    /// The module that its helpers come from.
    pub module_name: &'a str,
    /// The intrinsic tags that it handles.
    pub elements: Vec<&'a str>,
}

#[derive(Default, Clone, Copy, Debug, PartialEq, Eq, Structural)]
pub enum GenerateMode {
    #[default]
    Dom,
    Ssr,
    Universal,
    Dynamic,
}

/// What a transform is asked to do.
#[derive(Default)]
pub struct TransformOptions<'a> {
    /// The module that runtime helpers come from.
    pub module_name: &'a str,
    /// The renderers of the dynamic mode.
    pub renderers: Vec<RendererConfig<'a>>,
    /// Transform only files with this `@jsxImportSource`.
    pub require_import_source: Option<&'a str>,
    pub generate: GenerateMode,
    pub hydratable: bool,
    pub delegate_events: bool,
    /// Events that are delegated besides the usual ones.
    pub delegated_events: Vec<&'a str>,
    pub wrap_conditionals: bool,
    /// Nested closing tags may go where the parents stay open.
    pub omit_nested_closing_tags: bool,
    /// The last closing tag may go where that is safe.
    pub omit_last_closing_tag: bool,
    /// Attribute values may go without quotes where that is safe.
    pub omit_quotes: bool,
    /// Static styles may go into the template.
    pub inline_styles: bool,
    pub context_to_custom_elements: bool,
    pub built_ins: Vec<&'a str>,
    /// The effect wrapper; none where empty.
    pub effect_wrapper: &'a str,
    /// The memo wrapper; none where empty.
    pub memo_wrapper: &'a str,
    pub filename: &'a str,
    pub source_type: SourceType,
    pub source_map: bool,
    /// The comment that marks an expression as static.
    pub static_marker: &'a str,
    pub validate: bool,
    pub hmr: bool,
    /// "esm", "vite", "standard", "webpack5" or "rspack-esm".
    pub hmr_bundler: &'a str,
    pub hmr_granular: bool,
    pub hmr_jsx: bool,
    pub hmr_fix_render: bool,
    /// The templates so far, each with whether it is SVG.
    pub templates: Vec<(String, bool)>,
    pub helpers: FxHashSet<String>,
    pub delegates: FxHashSet<String>,
}

/// The texts that a list of string slices holds.
pub open spec fn slice_texts(items: Seq<&str>) -> Seq<Seq<char>> {
    items.map_values(|s: &str| s@)
}


/// Whether `item` is one of `items`.
pub fn is_one_of(items: &Vec<&str>, item: &str) -> (found: bool)
    ensures
        found == slice_texts(items@).contains(item@),
{
    let mut i: usize = 0;
    while i < items.len()
        invariant
            i <= items.len(),
            forall|k: int| 0 <= k < i ==> items@[k]@ != item@,
        decreases items.len() - i,
    {
        if same(items[i], item) {
            proof {
                assert(slice_texts(items@)[i as int] == item@);
            }
            return true;
        }
        i = i + 1;
    }
    proof {
        assert forall|k: int| 0 <= k < items@.len() implies slice_texts(items@)[k] != item@ by {
            assert(items@[k]@ != item@);
        }
    }
    false
}

/// The module of the first renderer named "dom".
pub open spec fn dom_module(renderers: Seq<RendererConfig>) -> Option<Seq<char>>
    decreases renderers.len(),
{
    if renderers.len() == 0 {
        None
    } else if renderers[0].name@ == "dom"@ {
        Some(renderers[0].module_name@)
    } else {
        dom_module(renderers.skip(1))
    }
}

impl<'a> RendererConfig<'a> {
    /// The renderer is the DOM one and handles `tag`.
    pub open spec fn is_dom_for(self, tag: Seq<char>) -> bool {
        self.name@ == "dom"@ && slice_texts(self.elements@).contains(tag)
    }
}

impl<'a> TransformOptions<'a> {
    /// Some DOM renderer handles `tag`.
    pub open spec fn dom_renders(self, tag: Seq<char>) -> bool {
        exists|i: int| 0 <= i < self.renderers@.len() && #[trigger] self.renderers@[i].is_dom_for(tag)
    }

    /// An intrinsic `tag` is left to the universal renderer.
    pub open spec fn universal_renders(self, tag: Seq<char>) -> bool {
        match self.generate {
            GenerateMode::Universal => true,
            GenerateMode::Dynamic => !self.dom_renders(tag),
            _ => false,
        }
    }

    /// The options that Solid has by default.
    pub open spec fn is_solid_defaults(self) -> bool {
        &&& self.module_name@ == "solid-js/web"@
        &&& self.renderers@.len() == 0
        &&& self.require_import_source is None
        &&& self.generate == GenerateMode::Dom
        &&& !self.hydratable
        &&& self.delegate_events
        &&& self.delegated_events@.len() == 0
        &&& self.wrap_conditionals
        &&& !self.omit_nested_closing_tags
        &&& self.omit_last_closing_tag
        &&& self.omit_quotes
        &&& self.inline_styles
        &&& self.context_to_custom_elements
        &&& slice_texts(self.built_ins@) == seq![
            "For"@,
            "Show"@,
            "Switch"@,
            "Match"@,
            "Suspense"@,
            "SuspenseList"@,
            "Portal"@,
            "Index"@,
            "Dynamic"@,
            "ErrorBoundary"@,
        ]
        &&& self.effect_wrapper@ == "effect"@
        &&& self.memo_wrapper@ == "memo"@
        &&& self.filename@ == "input.jsx"@
        &&& !self.source_map
        &&& self.static_marker@ == "@static"@
        &&& self.validate
        &&& !self.hmr
        &&& self.hmr_bundler@ == "standard"@
        &&& self.hmr_granular
        &&& self.hmr_jsx
        &&& self.hmr_fix_render
        &&& self.templates@.len() == 0
        &&& set_of(self.helpers) == Set::<Seq<char>>::empty()
        &&& set_of(self.delegates) == Set::<Seq<char>>::empty()
    }

    /// The defaults of Solid.
    pub fn solid_defaults() -> (options: TransformOptions<'static>)
        ensures
            options.is_solid_defaults(),
    {
        let mut built_ins: Vec<&'static str> = Vec::new();
        built_ins.push("For");
        built_ins.push("Show");
        built_ins.push("Switch");
        built_ins.push("Match");
        built_ins.push("Suspense");
        built_ins.push("SuspenseList");
        built_ins.push("Portal");
        built_ins.push("Index");
        built_ins.push("Dynamic");
        built_ins.push("ErrorBoundary");
        proof {
            assert(slice_texts(built_ins@) =~= seq![
                "For"@,
                "Show"@,
                "Switch"@,
                "Match"@,
                "Suspense"@,
                "SuspenseList"@,
                "Portal"@,
                "Index"@,
                "Dynamic"@,
                "ErrorBoundary"@,
            ]);
        }
        TransformOptions {
            module_name: "solid-js/web",
            renderers: Vec::new(),
            require_import_source: None,
            generate: GenerateMode::Dom,
            hydratable: false,
            delegate_events: true,
            delegated_events: Vec::new(),
            wrap_conditionals: true,
            omit_nested_closing_tags: false,
            omit_last_closing_tag: true,
            omit_quotes: true,
            inline_styles: true,
            context_to_custom_elements: true,
            built_ins,
            effect_wrapper: "effect",
            memo_wrapper: "memo",
            filename: "input.jsx",
            source_type: SourceType::tsx(),
            source_map: false,
            static_marker: "@static",
            validate: true,
            hmr: false,
            hmr_bundler: "standard",
            hmr_granular: true,
            hmr_jsx: true,
            hmr_fix_render: true,
            templates: Vec::new(),
            helpers: new_set(),
            delegates: new_set(),
        }
    }

    /// The module of the first renderer named "dom".
    pub fn dynamic_dom_renderer_module_name(&self) -> (module: Option<&'a str>)
        ensures
            match module {
                Some(module) => dom_module(self.renderers@) == Some(module@),
                None => dom_module(self.renderers@) is None,
            },
    {
        let mut i: usize = 0;
        proof {
            assert(self.renderers@.skip(0) =~= self.renderers@);
        }
        while i < self.renderers.len()
            invariant
                i <= self.renderers.len(),
                dom_module(self.renderers@.skip(i as int)) == dom_module(self.renderers@),
            decreases self.renderers.len() - i,
        {
            proof {
                let rest = self.renderers@.skip(i as int);
                assert(rest[0] == self.renderers@[i as int]);
                assert(rest.skip(1) =~= self.renderers@.skip(i + 1));
            }
            if same(self.renderers[i].name, "dom") {
                return Some(self.renderers[i].module_name);
            }
            i = i + 1;
        }
        None
    }

    /// Whether some DOM renderer handles `tag_name`.
    pub fn dynamic_uses_dom_renderer_for_tag(&self, tag_name: &str) -> (yes: bool)
        ensures
            yes == self.dom_renders(tag_name@),
    {
        let mut i: usize = 0;
        while i < self.renderers.len()
            invariant
                i <= self.renderers.len(),
                forall|k: int| 0 <= k < i ==> !#[trigger] self.renderers@[k].is_dom_for(tag_name@),
            decreases self.renderers.len() - i,
        {
            if same(self.renderers[i].name, "dom") && is_one_of(
                &self.renderers[i].elements,
                tag_name,
            ) {
                proof {
                    assert(self.renderers@[i as int].is_dom_for(tag_name@));
                }
                return true;
            }
            i = i + 1;
        }
        false
    }

    /// Whether an intrinsic `tag_name` is left to the universal renderer.
    pub fn should_use_universal_for_intrinsic(&self, tag_name: &str) -> (yes: bool)
        ensures
            yes == self.universal_renders(tag_name@),
    {
        match self.generate {
            GenerateMode::Universal => true,
            GenerateMode::Dynamic => !self.dynamic_uses_dom_renderer_for_tag(tag_name),
            _ => false,
        }
    }

    /// Notes a helper that is to be imported.
    pub fn register_helper(&mut self, name: &str)
        ensures
            set_of(final(self).helpers) == set_of(old(self).helpers).insert(name@),
            *final(self) == (TransformOptions { helpers: final(self).helpers, ..*old(self) }),
    {
        insert_member(&mut self.helpers, copied(name));
    }

    /// Notes an event that is to be delegated.
    pub fn register_delegate(&mut self, event: &str)
        ensures
            set_of(final(self).delegates) == set_of(old(self).delegates).insert(event@),
            *final(self) == (TransformOptions { delegates: final(self).delegates, ..*old(self) }),
    {
        insert_member(&mut self.delegates, copied(event));
    }

    /// Adds a template and returns its index.
    pub fn push_template(&mut self, template: String, is_svg: bool) -> (index: usize)
        ensures
            index == old(self).templates@.len(),
            final(self).templates@ == old(self).templates@.push((template, is_svg)),
            *final(self) == (TransformOptions { templates: final(self).templates, ..*old(self) }),
    {
        let index: usize = self.templates.len();
        self.templates.push((template, is_svg));
        index
    }
}

} // verus!
