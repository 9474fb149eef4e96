//! The transform of a file: what happens as the walk leaves an expression or a
//! variable.

use crate::able::{can_put_out, can_transform};
use crate::ast::{Expr, ExprV, JsxChild, JsxElement, JsxFragment, Kind};
use crate::growth_laws::exit_keeps_well_formed;
use crate::info::{InfoV, TransformInfo};
use crate::ir::{BlockContext, ContextV, ResultV, TransformResult};
use crate::node::{
    fragment_v, is_transformable, jsx_element_v, transform_fragment, transform_jsx_element,
};
use crate::options::{dom_module, GenerateMode, TransformOptions};
use crate::outside::share;
use crate::output::{build_dom_output_expr, can_output, output_v};
use crate::statics::{
    evaluate_static_text_expression, evaluate_v, text_of, Answer, Arithmetic, EvaluationV,
};
use crate::vocabulary::Vocabulary;
use std::rc::Rc;
use vstd::prelude::*;

verus! {

/// The name of an element, as far as it tells a component: an identifier with
/// what it names, a path, `this`, or a name with a namespace.
#[derive(Clone, Copy, Debug, PartialEq, Eq, Structural)]
pub enum ElementName {
    Ident { is_component: bool },
    Member,
    This,
    Namespaced,
}

/// The name is that of a component.
pub open spec fn names_component(name: ElementName) -> bool {
    match name {
        ElementName::Ident { is_component } => is_component,
        ElementName::Member | ElementName::This => true,
        ElementName::Namespaced => false,
    }
}

pub fn jsx_element_name_is_component(name: ElementName) -> (yes: bool)
    ensures
        yes == names_component(name),
{
    match name {
        ElementName::Ident { is_component } => is_component,
        ElementName::Member | ElementName::This => true,
        ElementName::Namespaced => false,
    }
}

/// What a node lies in, seen from it: the attributes or the children of an
/// element, the braces of a JSX expression, or something else.
#[derive(Clone, Copy, Debug, PartialEq, Eq, Structural)]
pub enum Surrounding {
    Attributes(ElementName),
    Children(ElementName),
    JsxExpression,
    Other,
}

/// Whether the nearest element round a node is a component; `around` goes from
/// the inside out.
pub open spec fn enclosing_component(around: Seq<Surrounding>) -> Option<bool>
    decreases around.len(),
{
    if around.len() == 0 {
        None
    } else {
        match around[0] {
            Surrounding::Attributes(name) => Some(names_component(name)),
            Surrounding::Children(name) => Some(names_component(name)),
            _ => enclosing_component(around.skip(1)),
        }
    }
}

pub fn enclosing_jsx_context_is_component(around: &Vec<Surrounding>) -> (found: Option<bool>)
    ensures
        found == enclosing_component(around@),
{
    let mut i: usize = 0;
    proof {
        assert(around@.skip(0) =~= around@);
    }
    while i < around.len()
        invariant
            i <= around@.len(),
            enclosing_component(around@) == enclosing_component(around@.skip(i as int)),
        decreases around@.len() - i,
    {
        proof {
            assert(around@.skip(i as int).skip(1) =~= around@.skip(i + 1));
        }
        match around[i] {
            Surrounding::Attributes(name) => {
                return Some(jsx_element_name_is_component(name));
            },
            Surrounding::Children(name) => {
                return Some(jsx_element_name_is_component(name));
            },
            _ => {},
        }
        i = i + 1;
    }
    None
}

/// JSX is left for later: it lies in the braces of a JSX expression, and the
/// nearest element round it is no component.
pub open spec fn is_deferred(around: Seq<Surrounding>) -> bool {
    around.contains(Surrounding::JsxExpression) && enclosing_component(around) != Some(true)
}

pub fn should_defer_nested_attribute_jsx(around: &Vec<Surrounding>) -> (yes: bool)
    ensures
        yes == is_deferred(around@),
{
    let mut inside = false;
    let mut i: usize = 0;
    while i < around.len()
        invariant
            i <= around@.len(),
            inside == around@.take(i as int).contains(Surrounding::JsxExpression),
        decreases around@.len() - i,
    {
        let here = around[i] == Surrounding::JsxExpression;
        proof {
            let before = around@.take(i as int);
            let longer = around@.take(i + 1);
            assert(longer =~= before.push(around@[i as int]));
            assert(longer[i as int] == around@[i as int]);
            if before.contains(Surrounding::JsxExpression) {
                let k = choose|k: int|
                    0 <= k < before.len() && before[k] == Surrounding::JsxExpression;
                assert(longer[k] == Surrounding::JsxExpression);
            }
            if longer.contains(Surrounding::JsxExpression) {
                let k = choose|k: int|
                    0 <= k < longer.len() && longer[k] == Surrounding::JsxExpression;
                assert(k < i ==> before[k] == Surrounding::JsxExpression);
            }
        }
        inside = inside || here;
        i = i + 1;
    }
    proof {
        assert(around@.take(around@.len() as int) =~= around@);
    }
    inside && enclosing_jsx_context_is_component(around) != Some(true)
}

// ---------------------------------------------------------------------------
// Expressions
// ---------------------------------------------------------------------------

/// What becomes of an expression as the walk leaves it.
pub enum Exit {
    /// It stays.
    Unchanged,
    /// It becomes an expression of the DOM renderer.
    Dom(Rc<Expr>),
    /// It is put out by the universal renderer.
    Universal(TransformResult),
    /// It cannot be transformed.
    Refused,
}

/// The value of an `Exit`.
pub ghost enum ExitV {
    Unchanged,
    Dom(ExprV),
    Universal(ResultV),
    Refused,
}

impl View for Exit {
    type V = ExitV;

    open spec fn view(&self) -> ExitV {
        match *self {
            Exit::Unchanged => ExitV::Unchanged,
            Exit::Dom(expr) => ExitV::Dom(expr@),
            Exit::Universal(result) => ExitV::Universal(result@),
            Exit::Refused => ExitV::Refused,
        }
    }
}

/// What the root of a tree is told.
pub open spec fn root_info(last_element: bool) -> InfoV {
    InfoV {
        top_level: true,
        last_element,
        skip_id: false,
        component_child: false,
        fragment_child: false,
        path: Seq::empty(),
        root_id: None,
        forced_id: None,
        to_be_closed: None,
        match_tag: None,
    }
}

/// A result is put out by the universal renderer.
pub open spec fn goes_universal(result: ResultV, generate: GenerateMode) -> bool {
    match generate {
        GenerateMode::Universal => true,
        GenerateMode::Dynamic => result.output_kind is Universal,
        _ => false,
    }
}

/// How a result is put out.
pub open spec fn put_out_v(
    result: ResultV,
    ctx: ContextV,
    options: TransformOptions,
    vocabulary: Vocabulary,
) -> (ExitV, ContextV) {
    if goes_universal(result, options.generate) {
        (ExitV::Universal(result), ctx)
    } else if can_output(result, ctx.hydratable) {
        let (ctx, expr) = output_v(ctx, result, vocabulary);
        (ExitV::Dom(expr), ctx)
    } else {
        (ExitV::Refused, ctx)
    }
}

/// What becomes of an expression as the walk leaves it.
pub open spec fn exit_v(
    expr: Expr,
    around: Seq<Surrounding>,
    ctx: ContextV,
    options: TransformOptions,
    vocabulary: Vocabulary,
) -> (ExitV, ContextV) {
    match expr.kind {
        Kind::JsxElement(element) => if is_deferred(around) {
            (ExitV::Unchanged, ctx)
        } else if !is_transformable(
            JsxChild::Element(element),
            true,
            false,
            options,
            vocabulary,
        ) {
            (ExitV::Refused, ctx)
        } else {
            let (result, ctx) = jsx_element_v(*element, root_info(true), ctx, options, vocabulary);
            put_out_v(result, ctx, options, vocabulary)
        },
        Kind::JsxFragment(fragment) => if is_deferred(around) {
            (ExitV::Unchanged, ctx)
        } else if !is_transformable(
            JsxChild::Fragment(fragment),
            true,
            false,
            options,
            vocabulary,
        ) {
            (ExitV::Refused, ctx)
        } else {
            let (result, ctx) = fragment_v(*fragment, root_info(false), ctx, options, vocabulary);
            put_out_v(result, ctx, options, vocabulary)
        },
        _ => (ExitV::Unchanged, ctx),
    }
}

fn told(last_element: bool) -> (info: TransformInfo)
    ensures
        info@ == root_info(last_element),
{
    let path: Vec<String> = Vec::new();
    proof {
        assert(crate::text::texts(path@) =~= Seq::<Seq<char>>::empty());
    }
    TransformInfo {
        top_level: true,
        last_element,
        skip_id: false,
        component_child: false,
        fragment_child: false,
        path,
        root_id: None,
        forced_id: None,
        to_be_closed: None,
        match_tag: None,
    }
}

/// The transform of one file.
pub struct SolidTransform<'a> {
    pub options: &'a TransformOptions<'a>,
    pub context: BlockContext<'a>,
}

/// The module of the DOM helpers: in the dynamic mode that of the DOM renderer,
/// where one is named.
pub open spec fn dom_module_of(options: TransformOptions) -> Seq<char> {
    if options.generate is Dynamic {
        match dom_module(options.renderers@) {
            Some(module) => module,
            None => options.module_name@,
        }
    } else {
        options.module_name@
    }
}

impl<'a> SolidTransform<'a> {
    /// A transform that has seen nothing yet.
    pub fn new(options: &'a TransformOptions<'a>, source_text: &'a str) -> (transform: Self)
        ensures
            transform.options == options,
            transform.context@ == (ContextV {
                templates: seq![],
                helpers: seq![],
                imports: seq![],
                aliases: Map::empty(),
                alias_counts: Map::empty(),
                delegates: seq![],
                hydratable: options.hydratable,
                counts: Map::empty(),
                constants: Map::empty(),
                effect_wrapper_enabled: options.effect_wrapper@.len() > 0,
                base_module: options.module_name@,
                dom_module: dom_module_of(*options),
                universal_module: options.module_name@,
                source: source_text@,
                steps: seq![],
                asked: None,
            }),
            transform.context@.well_formed(),
    {
        let dynamic = match options.generate {
            GenerateMode::Dynamic => true,
            _ => false,
        };
        let dom_module_name = if dynamic {
            match options.dynamic_dom_renderer_module_name() {
                Some(module) => module,
                None => options.module_name,
            }
        } else {
            options.module_name
        };
        let context = BlockContext::new(
            options.hydratable,
            source_text,
            options.effect_wrapper.unicode_len() > 0,
            options.module_name,
            dom_module_name,
            options.module_name,
        );
        SolidTransform { options, context }
    }

    /// Puts a result out.
    pub fn build_output_expr(&mut self, result: TransformResult, vocabulary: &Vocabulary) -> (exit:
        Exit)
        ensures
            final(self).options == old(self).options,
            (exit@, final(self).context@) == put_out_v(
                result@,
                old(self).context@,
                *old(self).options,
                *vocabulary,
            ),
    {
        let universal = match self.options.generate {
            GenerateMode::Universal => true,
            GenerateMode::Dynamic => result.uses_universal_output(),
            _ => false,
        };
        if universal {
            return Exit::Universal(result);
        }
        if !can_put_out(&result, self.context.is_hydratable()) {
            return Exit::Refused;
        }
        let expr = build_dom_output_expr(&result, &mut self.context, vocabulary);
        Exit::Dom(expr)
    }

    /// Transforms an expression as the walk leaves it; `around` is what it lies
    /// in, from the inside out.
    pub fn exit_expression(
        &mut self,
        expr: &Expr,
        around: &Vec<Surrounding>,
        vocabulary: &Vocabulary,
    ) -> (exit: Exit)
        ensures
            final(self).options == old(self).options,
            (exit@, final(self).context@) == exit_v(
                *expr,
                around@,
                old(self).context@,
                *old(self).options,
                *vocabulary,
            ),
            old(self).context@.well_formed() ==> final(self).context@.well_formed(),
    {
        proof {
            if self.context@.well_formed() {
                exit_keeps_well_formed(
                    expr,
                    around@,
                    self.context@,
                    *self.options,
                    *vocabulary,
                );
            }
        }
        match &expr.kind {
            Kind::JsxElement(element) => {
                if should_defer_nested_attribute_jsx(around) {
                    return Exit::Unchanged;
                }
                let child = JsxChild::Element(share(element));
                if !can_transform(&child, true, false, self.options, vocabulary) {
                    return Exit::Refused;
                }
                let info = told(true);
                proof {
                    reveal_with_fuel(is_transformable, 2);
                }
                let result = transform_jsx_element(
                    element,
                    &info,
                    &mut self.context,
                    self.options,
                    vocabulary,
                );
                self.build_output_expr(result, vocabulary)
            },
            Kind::JsxFragment(fragment) => {
                if should_defer_nested_attribute_jsx(around) {
                    return Exit::Unchanged;
                }
                let child = JsxChild::Fragment(share(fragment));
                if !can_transform(&child, true, false, self.options, vocabulary) {
                    return Exit::Refused;
                }
                let info = told(false);
                proof {
                    reveal_with_fuel(is_transformable, 2);
                }
                let result = transform_fragment(
                    fragment,
                    &info,
                    &mut self.context,
                    self.options,
                    vocabulary,
                );
                self.build_output_expr(result, vocabulary)
            },
            _ => Exit::Unchanged,
        }
    }

    /// Notes the value of a variable that never changes, where it folds to a
    /// text or a number; or tells the operation that is needed to know it.
    pub fn exit_variable_declarator(
        &mut self,
        symbol: Option<u32>,
        is_mutated: bool,
        init: &Option<Rc<Expr>>,
        table: &Vec<Answer>,
    ) -> (done: Result<(), (Arithmetic, u64, u64)>)
        ensures
            final(self).options == old(self).options,
            match (symbol, *init) {
                (Some(symbol), Some(init)) => if is_mutated {
                    done is Ok && final(self).context@ == old(self).context@
                } else {
                    match evaluate_v(*init, old(self).context@, table@) {
                        EvaluationV::Needs { op, left, right } => done == Err::<
                            (),
                            (Arithmetic, u64, u64),
                        >((op, left, right)) && final(self).context@ == old(self).context@,
                        value => done is Ok && final(self).context@ == (match text_of(value) {
                            Some(text) => ContextV {
                                constants: old(self).context@.constants.insert(symbol, text),
                                ..old(self).context@
                            },
                            None => old(self).context@,
                        }),
                    }
                },
                _ => done is Ok && final(self).context@ == old(self).context@,
            },
            old(self).context@.well_formed() ==> final(self).context@.well_formed(),
    {
        let symbol: u32 = match symbol {
            Some(symbol) => symbol,
            None => {
                return Ok(());
            },
        };
        if is_mutated {
            return Ok(());
        }
        match init {
            None => Ok(()),
            Some(init) => match evaluate_static_text_expression(init, &self.context, table) {
                Err(needed) => Err(needed),
                Ok(None) => Ok(()),
                Ok(Some(value)) => {
                    self.context.set_constant_text_value(symbol, value);
                    Ok(())
                },
            },
        }
    }
}

} // verus!
